//! Construction of card numbers, expiry dates, CVVs and whole card records.

use vstd::prelude::*;
use crate::luhn::{check_digit_of, checksum, checksum_of, luhn_valid, lemma_check_digit_completes};
use crate::networks::{has_length, lemma_bins_are_short_digit_strings, lookup, catalog, lemma_identifiers_unique, NetworkModel, CardNetworkRegistry};
use crate::random::{current_year_month, random_between};
use crate::text::{
    all_digits, char_is_digit, digit_char, digit_to_char, is_digit, push_char, push_signed_decimal,
    push_two_digits, signed_decimal_string, skip_chars, skip_str, starts_with, str_equal, two_digit_string,
};

verus! {


/// Whether `b` holds a wildcard placeholder (`x` or `X`).
pub open spec fn has_placeholder(b: Seq<char>) -> bool {
    exists|i: int| 0 <= i < b.len() && is_placeholder(#[trigger] b[i])
}

pub open spec fn is_placeholder(c: char) -> bool {
    c == 'x' || c == 'X'
}

/// The number of placeholders in `b`.
pub open spec fn placeholder_count(b: Seq<char>) -> nat
    decreases b.len(),
{
    if b.len() == 0 {
        0
    } else {
        placeholder_count(b.drop_last()) + if is_placeholder(b.last()) { 1nat } else { 0nat }
    }
}

/// The end of the run of digits of `b` that starts at `i`.
pub open spec fn digit_run_end(b: Seq<char>, i: int) -> int
    decreases b.len() - i,
{
    if 0 <= i < b.len() && is_digit(b[i]) {
        digit_run_end(b, i + 1)
    } else {
        i
    }
}

/// The leading run of digits of `b`.
pub open spec fn leading_digits(b: Seq<char>) -> Seq<char> {
    b.take(digit_run_end(b, 0))
}

/// What stays of a fixed prefix in a number of `target` characters: at most
/// `target - 1` of its characters, the last place being the check digit.
pub open spec fn kept_prefix(p: Seq<char>, target: nat) -> Seq<char> {
    if p.len() + 1 <= target {
        p
    } else {
        p.take(target - 1)
    }
}

/// The number built from `prefix`, padded with `fill` (or cut) to `target - 1`
/// characters, followed by its check digit.
pub open spec fn assembled(prefix: Seq<char>, target: nat, fill: Seq<char>) -> Seq<char> {
    let joined = prefix + fill;
    let body = if joined.len() + 1 <= target { joined } else { joined.take(target - 1) };
    body.push(digit_char(check_digit_of(body)))
}

/// What a generated number satisfies for the network `net` and the BIN request `bin`.
pub open spec fn generated_number_ok(net: NetworkModel, bin: Option<Seq<char>>, s: Seq<char>) -> bool {
    &&& luhn_valid(s)
    &&& match bin {
        None => {
            &&& all_digits(s)
            &&& exists|i: int, j: int|
                0 <= i < net.bins.len() && 0 <= j < net.lengths.len()
                && s.len() == #[trigger] net.lengths[j]
                && starts_with(s, #[trigger] net.bins[i])
        },
        Some(b) => if has_placeholder(b) {
            &&& s.len() == b.len()
            &&& starts_with(s, leading_digits(b))
            &&& all_digits(s)
        } else {
            &&& s.len() == net.lengths[0]
            &&& starts_with(s, kept_prefix(b, net.lengths[0] as nat))
            &&& (all_digits(b) ==> all_digits(s))
        },
    }
}

/// Every catalog network has BINs, and lengths of at least 13.
pub proof fn lemma_catalog_shape()
    ensures
        forall|i: int| 0 <= i < catalog().len() ==> {
            &&& (#[trigger] catalog()[i]).bins.len() > 0
            &&& catalog()[i].lengths.len() > 0
            &&& forall|k: int| 0 <= k < catalog()[i].lengths.len() ==> 13 <= #[trigger] catalog()[i].lengths[k] <= 19
        },
{
}


/// The optional BIN request, viewed.
pub open spec fn bin_view(b: Option<&str>) -> Option<Seq<char>> {
    match b {
        Some(s) => Some(s@),
        None => None,
    }
}

/// A string of digits holds no placeholder.
proof fn lemma_digits_hold_no_placeholder(s: Seq<char>)
    requires
        all_digits(s),
    ensures
        placeholder_count(s) == 0,
    decreases s.len(),
{
    if s.len() > 0 {
        lemma_digits_hold_no_placeholder(s.drop_last());
    }
}

/// Placeholders lie outside a leading run of `r` digits.
proof fn lemma_placeholders_after_run(b: Seq<char>, r: int, k: int)
    requires
        0 <= r <= k <= b.len(),
        forall|i: int| 0 <= i < r ==> is_digit(#[trigger] b[i]),
    ensures
        placeholder_count(b.take(k)) <= k - r,
    decreases k,
{
    if k == r {
        lemma_digits_hold_no_placeholder(b.take(r));
    } else {
        assert(b.take(k).drop_last() =~= b.take(k - 1));
        lemma_placeholders_after_run(b, r, k - 1);
    }
}

/// The shape of an assembled number when the fill reaches the target length.
proof fn lemma_assembled(prefix: Seq<char>, target: nat, fill: Seq<char>)
    requires
        target >= 1,
        prefix.len() + fill.len() + 1 >= target,
    ensures
        assembled(prefix, target, fill).len() == target,
        starts_with(assembled(prefix, target, fill), kept_prefix(prefix, target)),
        all_digits(prefix) && all_digits(fill) ==> all_digits(assembled(prefix, target, fill)),
        luhn_valid(assembled(prefix, target, fill)),
{
    let joined = prefix + fill;
    let body = if joined.len() + 1 <= target { joined } else { joined.take(target - 1) };
    let r = assembled(prefix, target, fill);
    assert(body.len() == target - 1);
    lemma_check_digit_completes(body);
    let kp = kept_prefix(prefix, target);
    assert(r.subrange(0, kp.len() as int) =~= kp);
    if all_digits(prefix) && all_digits(fill) {
        assert forall|i: int| 0 <= i < r.len() implies is_digit(#[trigger] r[i]) by {
            if i < body.len() {
                assert(r[i] == joined[i]);
                if i >= prefix.len() {
                    assert(joined[i] == fill[i - prefix.len()]);
                }
            }
        }
    }
}

/// Whether `bin` holds a placeholder.
fn contains_placeholder(bin: &str) -> (r: bool)
    ensures
        r == has_placeholder(bin@),
{
    let n = bin.unicode_len();
    let mut i: usize = 0;
    while i < n
        invariant
            n == bin@.len(),
            i <= n,
            forall|k: int| 0 <= k < i ==> !is_placeholder(#[trigger] bin@[k]),
        decreases n - i,
    {
        let c = bin.get_char(i);
        if c == 'x' || c == 'X' {
            assert(is_placeholder(bin@[i as int]));
            return true;
        }
        i = i + 1;
    }
    false
}


/// Whether month `m` of year `y` lies before month `cm` of year `cy`.
pub open spec fn is_past(m: int, y: int, cy: int, cm: int) -> bool {
    y < cy || (y == cy && m < cm)
}

/// A date drawn afresh: a year among the next nine, and a month not before
/// the current one when the year is the current year.
pub open spec fn fresh_expiry(rm: int, ry: int, cy: int, cm: int) -> bool {
    &&& cy <= ry <= cy + 8
    &&& if ry == cy { cm <= rm <= 12 } else { 1 <= rm <= 12 }
}

/// Whether `(rm, ry)` is an expiry that the request `(month, year)` may give
/// when today is month `cm` of year `cy`.
pub open spec fn expiry_ok(month: Option<u32>, year: Option<i32>, cy: int, cm: int, rm: int, ry: int) -> bool {
    match (month, year) {
        (Some(m), Some(y)) => if is_past(m as int, y as int, cy, cm) {
            fresh_expiry(rm, ry, cy, cm)
        } else {
            rm == m && ry == y
        },
        (Some(m), None) => {
            &&& cy <= ry <= cy + 8
            &&& if ry == cy && m < cm { cm <= rm <= 12 } else { rm == m }
        },
        (None, Some(y)) => {
            &&& ry == y
            &&& if y == cy { cm <= rm <= 12 } else { 1 <= rm <= 12 }
        },
        (None, None) => fresh_expiry(rm, ry, cy, cm),
    }
}

/// Whether `(cy, cm)` is a date the local clock can report.
pub open spec fn clock_date(cy: int, cm: int) -> bool {
    -262143 <= cy <= 262142 && 1 <= cm <= 12
}

/// Whether the strings `(exp_month, exp_year)` spell an expiry that the
/// request may give on some date the clock can report.
pub open spec fn expiry_strings_ok(month: Option<u32>, year: Option<i32>, exp_month: Seq<char>, exp_year: Seq<char>) -> bool {
    exists|cy: int, cm: int, rm: u32, ry: i32|
        clock_date(cy, cm) && #[trigger] expiry_ok(month, year, cy, cm, rm as int, ry as int)
        && exp_month == two_digit_string(rm as nat) && exp_year == signed_decimal_string(ry as int)
}

/// The combined `MM/YY` expiry.
pub open spec fn expiry_text(exp_month: Seq<char>, exp_year: Seq<char>) -> Seq<char> {
    exp_month + seq!['/'] + skip_chars(exp_year, 2)
}

/// A generated card record.
#[derive(Debug, Clone)]
pub struct CardData {
    pub number: String,
    pub network: String,
    pub exp_month: String,
    pub exp_year: String,
    pub expiry: String,
    pub cvv: Option<String>,
    /// The balance in cents.
    pub balance: Option<u64>,
    pub currency: Option<String>,
    pub bin: String,
}

/// An optional string, viewed.
pub open spec fn opt_view(o: Option<String>) -> Option<Seq<char>> {
    match o {
        Some(s) => Some(s@),
        None => None,
    }
}

/// Whether `c` is a record made of these parts: the expiry joins month and
/// year, and the BIN is the number's first six characters.
pub open spec fn record_of(
    c: CardData,
    number: Seq<char>,
    network: Seq<char>,
    exp_month: Seq<char>,
    exp_year: Seq<char>,
    cvv: Option<Seq<char>>,
    balance: Option<u64>,
    currency: Option<Seq<char>>,
) -> bool {
    &&& c.number@ == number
    &&& c.network@ == network
    &&& c.exp_month@ == exp_month
    &&& c.exp_year@ == exp_year
    &&& c.expiry@ == expiry_text(exp_month, exp_year)
    &&& opt_view(c.cvv) == cvv
    &&& c.balance == balance
    &&& opt_view(c.currency) == currency
    &&& c.bin@ == (if number.len() <= 6 { number } else { number.take(6) })
}

/// The smallest and largest balances drawn, in cents.
pub const MIN_BALANCE_CENTS: u64 = 10000;
pub const MAX_BALANCE_CENTS: u64 = 1000000;

/// Whether `c` is a card that a batch request may produce for the catalog network `net`.
pub open spec fn card_ok(
    c: CardData,
    net: NetworkModel,
    bin: Option<Seq<char>>,
    exp_month: Option<u32>,
    exp_year: Option<i32>,
    include_cvv: bool,
    include_balance: bool,
    currency: Option<Seq<char>>,
) -> bool {
    &&& generated_number_ok(net, bin, c.number@)
    &&& c.network@ == net.name
    &&& expiry_strings_ok(exp_month, exp_year, c.exp_month@, c.exp_year@)
    &&& c.expiry@ == expiry_text(c.exp_month@, c.exp_year@)
    &&& (c.cvv is Some <==> include_cvv)
    &&& (c.cvv matches Some(v) ==> v@.len() == net.cvv_length && all_digits(v@))
    &&& (c.balance is Some <==> include_balance)
    &&& (c.balance matches Some(b) ==> MIN_BALANCE_CENTS <= b <= MAX_BALANCE_CENTS)
    &&& opt_view(c.currency) == (if include_balance { currency } else { None })
    &&& c.bin@ == (if c.number@.len() <= 6 { c.number@ } else { c.number@.take(6) })
}


/// Looking up a catalog identifier finds its own entry.
pub proof fn lemma_lookup_catalog(k: int)
    requires
        0 <= k < catalog().len(),
    ensures
        lookup(catalog()[k].identifier) == Some(catalog()[k]),
{
    lemma_identifiers_unique();
    let id = catalog()[k].identifier;
    assert(exists|i: int| 0 <= i < catalog().len() && #[trigger] catalog()[i].identifier == id);
    let j = choose|i: int| 0 <= i < catalog().len() && #[trigger] catalog()[i].identifier == id;
    assert(j == k);
}

/// Whether `cards` is what a batch request may produce: `quantity` cards, each
/// of the requested network (any catalog network for `random`).
pub open spec fn batch_ok(
    cards: Seq<CardData>,
    network: Seq<char>,
    quantity: nat,
    bin: Option<Seq<char>>,
    exp_month: Option<u32>,
    exp_year: Option<i32>,
    include_cvv: bool,
    include_balance: bool,
    currency: Option<Seq<char>>,
) -> bool {
    &&& cards.len() == quantity
    &&& forall|i: int| 0 <= i < cards.len() ==> #[trigger] card_in_batch(cards[i], network, bin,
        exp_month, exp_year, include_cvv, include_balance, currency)
}

/// Whether `c` is a card of the requested network (any catalog network for `random`).
pub open spec fn card_in_batch(
    c: CardData,
    network: Seq<char>,
    bin: Option<Seq<char>>,
    exp_month: Option<u32>,
    exp_year: Option<i32>,
    include_cvv: bool,
    include_balance: bool,
    currency: Option<Seq<char>>,
) -> bool {
    exists|k: int|
        0 <= k < catalog().len()
        && (network != "random"@ ==> catalog()[k].identifier == network)
        && #[trigger] card_ok(c, catalog()[k], bin, exp_month, exp_year, include_cvv, include_balance, currency)
}


/// A number generated without a BIN request has one of the network's valid
/// lengths and passes the Luhn check.
pub proof fn lemma_unrequested_bin_number(net: NetworkModel, s: Seq<char>)
    requires
        generated_number_ok(net, None, s),
    ensures
        has_length(net, s.len() as int),
        luhn_valid(s),
{
    let (i, j) = choose|i: int, j: int|
        0 <= i < net.bins.len() && 0 <= j < net.lengths.len()
        && s.len() == #[trigger] net.lengths[j]
        && starts_with(s, #[trigger] net.bins[i]);
    assert(net.lengths[j] == s.len());
}

/// A number generated for a BIN of digits starts with that BIN, when the BIN
/// leaves room for the check digit within the network's first length.
pub proof fn lemma_digit_bin_is_prefix(net: NetworkModel, b: Seq<char>, s: Seq<char>)
    requires
        all_digits(b),
        net.lengths.len() > 0,
        b.len() < net.lengths[0],
        generated_number_ok(net, Some(b), s),
    ensures
        starts_with(s, b),
{
    if has_placeholder(b) {
        let i = choose|i: int| 0 <= i < b.len() && is_placeholder(#[trigger] b[i]);
        assert(is_digit(b[i]));
    }
}

/// Appends `count` random digits to `s`.
fn push_random_digits(s: &mut String, count: usize)
    ensures
        final(s)@.len() == old(s)@.len() + count,
        final(s)@.take(old(s)@.len() as int) == old(s)@,
        forall|i: int| old(s)@.len() <= i < final(s)@.len() ==> is_digit(#[trigger] final(s)@[i]),
{
    let ghost start = s@;
    let mut k: usize = 0;
    while k < count
        invariant
            k <= count,
            s@.len() == start.len() + k,
            s@.take(start.len() as int) == start,
            forall|i: int| start.len() <= i < s@.len() ==> is_digit(#[trigger] s@[i]),
        decreases count - k,
    {
        let d = random_between(0, 9);
        let ghost before = s@;
        push_char(s, digit_to_char(d as u32));
        assert(s@.take(start.len() as int) =~= before.take(start.len() as int));
        k = k + 1;
    }
}

/// A copy of the first `n` characters of `s`.
fn take_chars(s: &str, n: usize) -> (r: String)
    requires
        n <= s@.len(),
    ensures
        r@ == s@.take(n as int),
{
    let mut r = String::new();
    let mut i: usize = 0;
    while i < n
        invariant
            i <= n <= s@.len(),
            r@ == s@.take(i as int),
        decreases n - i,
    {
        push_char(&mut r, s.get_char(i));
        i = i + 1;
        assert(r@ =~= s@.take(i as int));
    }
    r
}

/// The card-data generator. It holds no state: every draw comes from the
/// thread-local random source.
pub struct CreditCardGenerator;

impl CreditCardGenerator {
    pub fn new() -> Self {
        CreditCardGenerator
    }

    /// The Luhn checksum of the digits of `card_num`; other characters are skipped.
    pub fn luhn_checksum(card_num: &str) -> (r: u32)
        ensures
            r as nat == checksum_of(card_num@),
            r < 10,
    {
        checksum(card_num)
    }

    /// Whether the digits of `card_num` pass the Luhn check.
    pub fn is_luhn_valid(card_num: &str) -> (r: bool)
        ensures
            r == luhn_valid(card_num@),
    {
        Self::luhn_checksum(card_num) == 0
    }

    /// The digit that completes `prefix` into a Luhn-valid number.
    pub fn check_digit_for(prefix: &str) -> (r: u32)
        ensures
            r as nat == check_digit_of(prefix@),
            r < 10,
    {
        let mut with_zero = String::from_str(prefix);
        push_char(&mut with_zero, '0');
        let c = Self::luhn_checksum(with_zero.as_str());
        (10 - c) % 10
    }

    /// The number made of `prefix` and the digits of `fill`, cut or padded to
    /// `target_length - 1` characters, then completed with its check digit.
    pub fn finish_number(prefix: &str, target_length: usize, fill: &str) -> (r: String)
        requires
            target_length >= 1,
        ensures
            r@ == assembled(prefix@, target_length as nat, fill@),
            luhn_valid(r@),
    {
        let mut joined = String::from_str(prefix);
        joined.append(fill);
        let body_len = joined.as_str().unicode_len();
        let mut body = if body_len < target_length {
            joined
        } else {
            take_chars(joined.as_str(), target_length - 1)
        };
        let d = Self::check_digit_for(body.as_str());
        let ghost b = body@;
        push_char(&mut body, digit_to_char(d));
        proof {
            lemma_check_digit_completes(b);
        }
        body
    }

    /// Expands a BIN with placeholders: its leading digits, followed by one
    /// random digit for each placeholder but one (the check digit's place).
    fn process_bin_with_placeholder(&self, bin: &str) -> (r: String)
        requires
            has_placeholder(bin@),
        ensures
            r@.len() == leading_digits(bin@).len() + placeholder_count(bin@) - 1,
            starts_with(r@, leading_digits(bin@)),
            all_digits(r@),
            leading_digits(bin@).len() + placeholder_count(bin@) <= bin@.len(),
    {
        let n = bin.unicode_len();
        let mut run: usize = 0;
        while run < n && char_is_digit(bin.get_char(run))
            invariant
                n == bin@.len(),
                run <= n,
                digit_run_end(bin@, run as int) == digit_run_end(bin@, 0),
                forall|i: int| 0 <= i < run ==> is_digit(#[trigger] bin@[i]),
            decreases n - run,
        {
            run = run + 1;
        }
        let mut x_count: usize = 0;
        let mut i: usize = 0;
        while i < n
            invariant
                n == bin@.len(),
                i <= n,
                x_count == placeholder_count(bin@.take(i as int)),
                x_count <= i,
                forall|k: int| 0 <= k < i && is_placeholder(#[trigger] bin@[k]) ==> x_count >= 1,
            decreases n - i,
        {
            let c = bin.get_char(i);
            assert(bin@.take(i + 1).drop_last() =~= bin@.take(i as int));
            if c == 'x' || c == 'X' {
                x_count = x_count + 1;
            }
            i = i + 1;
        }
        assert(bin@.take(n as int) =~= bin@);
        proof {
            lemma_placeholders_after_run(bin@, run as int, n as int);
        }
        let mut result = take_chars(bin, run);
        assert(result@ == leading_digits(bin@));
        let ghost fixed = result@;
        push_random_digits(&mut result, x_count - 1);
        assert(result@.subrange(0, fixed.len() as int) =~= result@.take(fixed.len() as int));
        assert forall|k: int| 0 <= k < result@.len() implies is_digit(#[trigger] result@[k]) by {
            if k < fixed.len() {
                assert(result@.take(fixed.len() as int)[k] == result@[k]);
                assert(fixed[k] == bin@[k]);
            }
        }
        result
    }

    /// A card number for the network `network`. Without a BIN request a BIN and
    /// a length are drawn from the network's lists; a BIN of plain characters is
    /// kept as the prefix of a number of the network's first length; a BIN with
    /// placeholders keeps its leading digits and sets the number's length.
    pub fn generate_card_number(&self, network: &str, bin_code: Option<&str>) -> (r: Result<String, String>)
        ensures
            r is Err <==> lookup(network@) is None,
            r matches Err(e) ==> e@ == "不支持的网络类型: "@ + network@,
            r matches Ok(s) ==> generated_number_ok(lookup(network@)->0, bin_view(bin_code), s@),
    {
        let network_info = match CardNetworkRegistry::get_network_by_identifier(network) {
            Some(n) => n,
            None => {
                let mut e = String::from_str("不支持的网络类型: ");
                e.append(network);
                return Err(e);
            },
        };
        let ghost net = network_info@;
        let ghost net_index = choose|i: int| 0 <= i < catalog().len() && #[trigger] catalog()[i].identifier == network@;
        proof {
            lemma_catalog_shape();
            lemma_bins_are_short_digit_strings();
            assert(net == catalog()[net_index]);
        }
        assert(network_info.bins@.len() == net.bins.len());
        let chosen_bin: String;
        let target_length: usize;
        let ghost mut bin_index: int = 0;
        let ghost mut length_index: int = 0;
        match bin_code {
            Some(bin) => {
                if contains_placeholder(bin) {
                    chosen_bin = self.process_bin_with_placeholder(bin);
                    target_length = bin.unicode_len();
                } else {
                    chosen_bin = String::from_str(bin);
                    target_length = network_info.length[0];
                }
            },
            None => {
                let bi = random_between(0, (network_info.bins.len() - 1) as u64) as usize;
                let li = random_between(0, (network_info.length.len() - 1) as u64) as usize;
                chosen_bin = String::from_str(network_info.bins[bi]);
                target_length = network_info.length[li];
                proof {
                    bin_index = bi as int;
                    length_index = li as int;
                    assert(chosen_bin@ == net.bins[bin_index]);
                }
            },
        }
        let have = chosen_bin.as_str().unicode_len();
        let mut fill = String::new();
        if have < target_length && have + 1 < target_length {
            push_random_digits(&mut fill, target_length - 1 - have);
        }
        assert(all_digits(fill@));
        let number = Self::finish_number(chosen_bin.as_str(), target_length, fill.as_str());
        proof {
            lemma_assembled(chosen_bin@, target_length as nat, fill@);
            if let Some(b) = bin_code {
                if has_placeholder(b@) {
                    let lead = leading_digits(b@);
                    assert(kept_prefix(chosen_bin@, target_length as nat) == chosen_bin@);
                    assert(number@.subrange(0, lead.len() as int) =~= chosen_bin@.subrange(0, lead.len() as int));
                    assert(all_digits(number@));
                } else {
                    assert(target_length == net.lengths[0]);
                }
            } else {
                assert(number@.len() == net.lengths[length_index]);
                assert(all_digits(net.bins[bin_index]));
                assert(chosen_bin@.len() <= 4);
                assert(kept_prefix(chosen_bin@, target_length as nat) == chosen_bin@);
                assert(starts_with(number@, net.bins[bin_index]));
            }
        }
        Ok(number)
    }

    /// Month and year of an expiry for the request `(month, year)` when today
    /// is month `cm` of year `cy`.
    pub fn expiry_values(month: Option<u32>, year: Option<i32>, cy: i32, cm: u32) -> (r: (u32, i32))
        requires
            clock_date(cy as int, cm as int),
        ensures
            expiry_ok(month, year, cy as int, cm as int, r.0 as int, r.1 as int),
    {
        match (month, year) {
            (Some(m), Some(y)) => {
                if y < cy || (y == cy && m < cm) {
                    Self::fresh_values(cy, cm)
                } else {
                    (m, y)
                }
            },
            (Some(m), None) => {
                let default_year = cy + random_between(0, 8) as i32;
                if default_year == cy && m < cm {
                    (random_between(cm as u64, 12) as u32, default_year)
                } else {
                    (m, default_year)
                }
            },
            (None, Some(y)) => {
                if y == cy {
                    (random_between(cm as u64, 12) as u32, y)
                } else {
                    (random_between(1, 12) as u32, y)
                }
            },
            (None, None) => Self::fresh_values(cy, cm),
        }
    }

    /// A random expiry from month `cm` of year `cy` to eight years on.
    pub fn fresh_values(cy: i32, cm: u32) -> (r: (u32, i32))
        requires
            clock_date(cy as int, cm as int),
        ensures
            fresh_expiry(r.0 as int, r.1 as int, cy as int, cm as int),
    {
        let y = cy + random_between(0, 8) as i32;
        if y == cy {
            (random_between(cm as u64, 12) as u32, y)
        } else {
            (random_between(1, 12) as u32, y)
        }
    }

    /// An expiry as a two-digit month and a year, honouring the requested
    /// month and year; a requested date in the past is replaced by a fresh one.
    pub fn generate_expiry(&self, month: Option<u32>, year: Option<i32>) -> (r: (String, String))
        ensures
            expiry_strings_ok(month, year, r.0@, r.1@),
    {
        let (cy, cm) = current_year_month();
        let (m, y) = Self::expiry_values(month, year, cy, cm);
        let mut exp_month = String::new();
        push_two_digits(&mut exp_month, m as u64);
        let mut exp_year = String::new();
        push_signed_decimal(&mut exp_year, y);
        assert(exp_month@ =~= two_digit_string(m as nat));
        assert(exp_year@ =~= signed_decimal_string(y as int));
        assert(expiry_ok(month, year, cy as int, cm as int, m as int, y as int));
        (exp_month, exp_year)
    }

    /// A CVV of the network's length, made of random digits.
    pub fn generate_cvv(&self, network: &str) -> (r: Result<String, String>)
        ensures
            r is Err <==> lookup(network@) is None,
            r matches Err(e) ==> e@ == "不支持的网络类型: "@ + network@,
            r matches Ok(s) ==> s@.len() == lookup(network@)->0.cvv_length && all_digits(s@),
    {
        let network_info = match CardNetworkRegistry::get_network_by_identifier(network) {
            Some(n) => n,
            None => {
                let mut e = String::from_str("不支持的网络类型: ");
                e.append(network);
                return Err(e);
            },
        };
        let mut cvv = String::new();
        push_random_digits(&mut cvv, network_info.cvv_length);
        Ok(cvv)
    }

    /// A random balance in cents within `min..=max`.
    pub fn generate_balance(&self, min: u64, max: u64) -> (r: u64)
        requires
            min <= max,
        ensures
            min <= r <= max,
    {
        random_between(min, max)
    }

    /// A card record from its parts: the expiry is `MM/YY` from the month and
    /// the year's characters after the first two; the BIN is the first six
    /// characters of the number.
    pub fn assemble_card(
        number: String,
        network: String,
        exp_month: String,
        exp_year: String,
        cvv: Option<String>,
        balance: Option<u64>,
        currency: Option<String>,
    ) -> (r: CardData)
        ensures
            record_of(r, number@, network@, exp_month@, exp_year@, opt_view(cvv), balance, opt_view(currency)),
    {
        let mut expiry = String::from_str(exp_month.as_str());
        push_char(&mut expiry, '/');
        let year_short = skip_str(exp_year.as_str(), 2);
        expiry.append(year_short.as_str());
        let n = number.as_str().unicode_len();
        let bin = if n <= 6 {
            String::from_str(number.as_str())
        } else {
            take_chars(number.as_str(), 6)
        };
        assert(expiry@ =~= expiry_text(exp_month@, exp_year@));
        CardData { number, network, exp_month, exp_year, expiry, cvv, balance, currency, bin }
    }

    /// `quantity` card records of the network `network` (or, for `random`, of a
    /// network drawn for each record). The first failure ends the batch.
    pub fn generate_card_data(
        &self,
        network: &str,
        quantity: usize,
        exp_month: Option<u32>,
        exp_year: Option<i32>,
        include_cvv: bool,
        include_balance: bool,
        currency: Option<String>,
        bin_code: Option<String>,
    ) -> (r: Result<Vec<CardData>, String>)
        ensures
            r is Err <==> (network@ != "random"@ && lookup(network@) is None && quantity > 0),
            r matches Err(e) ==> e@ == "不支持的网络类型: "@ + network@,
            r matches Ok(cards) ==> batch_ok(cards@, network@, quantity as nat, opt_view(bin_code),
                exp_month, exp_year, include_cvv, include_balance, opt_view(currency)),
    {
        let all_networks = CardNetworkRegistry::get_all_networks();
        let is_random = str_equal(network, "random");
        let bin_ref: Option<&str> = match &bin_code {
            Some(b) => Some(b.as_str()),
            None => None,
        };
        assert(bin_view(bin_ref) == opt_view(bin_code));
        let mut cards: Vec<CardData> = Vec::new();
        let mut n: usize = 0;
        while n < quantity
            invariant
                all_networks@.len() == catalog().len(),
                forall|k: int| 0 <= k < all_networks@.len() ==> (#[trigger] all_networks@[k])@ == catalog()[k],
                is_random == (network@ == "random"@),
                bin_view(bin_ref) == opt_view(bin_code),
                n <= quantity,
                n > 0 ==> (network@ == "random"@ || lookup(network@) is Some),
                batch_ok(cards@, network@, n as nat, opt_view(bin_code), exp_month, exp_year,
                    include_cvv, include_balance, opt_view(currency)),
            decreases quantity - n,
        {
            let ghost mut k: int = 0;
            let chosen: &str = if is_random {
                let pick = random_between(0, (all_networks.len() - 1) as u64) as usize;
                proof {
                    k = pick as int;
                    lemma_lookup_catalog(k);
                }
                all_networks[pick].identifier
            } else {
                network
            };
            proof {
                if !is_random && lookup(network@) is Some {
                    lemma_identifiers_unique();
                    k = choose|i: int| 0 <= i < catalog().len() && #[trigger] catalog()[i].identifier == network@;
                }
            }
            let card_number = match self.generate_card_number(chosen, bin_ref) {
                Ok(s) => s,
                Err(e) => {
                    return Err(e);
                },
            };
            assert(lookup(chosen@) == Some(catalog()[k]));
            let (month, year) = self.generate_expiry(exp_month, exp_year);
            let cvv = if include_cvv {
                match self.generate_cvv(chosen) {
                    Ok(c) => Some(c),
                    Err(e) => {
                        return Err(e);
                    },
                }
            } else {
                None
            };
            let balance = if include_balance {
                Some(self.generate_balance(MIN_BALANCE_CENTS, MAX_BALANCE_CENTS))
            } else {
                None
            };
            let network_name = match CardNetworkRegistry::get_network_by_identifier(chosen) {
                Some(info) => String::from_str(info.name),
                None => String::from_str("Unknown"),
            };
            let card_currency = if include_balance {
                match &currency {
                    Some(c) => Some(c.clone()),
                    None => None,
                }
            } else {
                None
            };
            let card = Self::assemble_card(card_number, network_name, month, year, cvv, balance, card_currency);
            assert(card_ok(card, catalog()[k], opt_view(bin_code), exp_month, exp_year, include_cvv,
                include_balance, opt_view(currency)));
            let ghost before = cards@;
            cards.push(card);
            assert forall|i: int| 0 <= i < cards@.len() implies #[trigger] card_in_batch(cards@[i], network@,
                opt_view(bin_code), exp_month, exp_year, include_cvv, include_balance, opt_view(currency)) by {
                if i < before.len() {
                    assert(cards@[i] == before[i]);
                } else {
                    assert(cards@[i] == card);
                }
            }
            n = n + 1;
        }
        Ok(cards)
    }

    /// The identifiers of the catalog's networks, in catalog order.
    pub fn get_networks(&self) -> (r: Vec<String>)
        ensures
            r@.len() == catalog().len(),
            forall|i: int| 0 <= i < r@.len() ==> (#[trigger] r@[i])@ == catalog()[i].identifier,
    {
        let networks = CardNetworkRegistry::get_all_networks();
        let mut r: Vec<String> = Vec::new();
        let mut i: usize = 0;
        while i < networks.len()
            invariant
                networks@.len() == catalog().len(),
                forall|k: int| 0 <= k < networks@.len() ==> (#[trigger] networks@[k])@ == catalog()[k],
                i <= networks@.len(),
                r@.len() == i,
                forall|k: int| 0 <= k < i ==> (#[trigger] r@[k])@ == catalog()[k].identifier,
            decreases networks@.len() - i,
        {
            r.push(String::from_str(networks[i].identifier));
            i = i + 1;
        }
        r
    }
}

impl Default for CreditCardGenerator {
    fn default() -> Self {
        Self::new()
    }
}

} // verus!
