//! The catalog of card networks and detection of a number's network.

use vstd::prelude::*;
use crate::text::{all_digits, decimal_value, starts_with, str_equal, str_starts_with, char_is_digit, copy_str};

verus! {

/// A card network and its numbering rules.
#[derive(Debug, Clone)]
pub struct CardNetwork {
    pub name: &'static str,
    pub identifier: &'static str,
    pub bins: Vec<&'static str>,
    pub length: Vec<usize>,
    pub cvv_length: usize,
}

/// The mathematical content of a `CardNetwork`.
pub struct NetworkModel {
    pub name: Seq<char>,
    pub identifier: Seq<char>,
    pub bins: Seq<Seq<char>>,
    pub lengths: Seq<usize>,
    pub cvv_length: nat,
}

impl View for CardNetwork {
    type V = NetworkModel;

    open spec fn view(&self) -> NetworkModel {
        NetworkModel {
            name: self.name@,
            identifier: self.identifier@,
            bins: self.bins@.map_values(|b: &'static str| b@),
            lengths: self.length@,
            cvv_length: self.cvv_length as nat,
        }
    }
}

/// Whether `num` starts with one of the network's BIN prefixes.
pub open spec fn has_bin_prefix(net: NetworkModel, num: Seq<char>) -> bool {
    exists|j: int| 0 <= j < net.bins.len() && starts_with(num, #[trigger] net.bins[j])
}

/// Whether `len` is one of the network's valid lengths.
pub open spec fn has_length(net: NetworkModel, len: int) -> bool {
    exists|k: int| 0 <= k < net.lengths.len() && #[trigger] net.lengths[k] == len
}

/// Whether the first `k` characters of `num` are digits whose value lies in `lo..=hi`.
pub open spec fn leading_in_range(num: Seq<char>, k: int, lo: nat, hi: nat) -> bool {
    k <= num.len() && all_digits(num.take(k)) && lo <= decimal_value(num.take(k)) <= hi
}

/// The numeric-range exceptions: 16-digit Mastercard numbers led by 2221..=2720,
/// and 16-digit Discover numbers led by 644..=649.
pub open spec fn range_exception(net: NetworkModel, num: Seq<char>) -> bool {
    num.len() == 16 && (
        (net.identifier == "mastercard"@ && leading_in_range(num, 4, 2221, 2720))
        || (net.identifier == "discover"@ && leading_in_range(num, 3, 644, 649))
    )
}

/// Whether `num` belongs to the network.
pub open spec fn network_matches(net: NetworkModel, num: Seq<char>) -> bool {
    (has_bin_prefix(net, num) && has_length(net, num.len() as int)) || range_exception(net, num)
}

pub open spec fn visa() -> NetworkModel {
    NetworkModel {
        name: "Visa"@,
        identifier: "visa"@,
        bins: seq!["4"@],
        lengths: seq![13usize, 16, 19],
        cvv_length: 3,
    }
}

pub open spec fn mastercard() -> NetworkModel {
    NetworkModel {
        name: "Mastercard"@,
        identifier: "mastercard"@,
        bins: seq!["51"@, "52"@, "53"@, "54"@, "55"@],
        lengths: seq![16usize],
        cvv_length: 3,
    }
}

pub open spec fn amex() -> NetworkModel {
    NetworkModel {
        name: "American Express"@,
        identifier: "amex"@,
        bins: seq!["34"@, "37"@],
        lengths: seq![15usize],
        cvv_length: 3,
    }
}

pub open spec fn discover() -> NetworkModel {
    NetworkModel {
        name: "Discover"@,
        identifier: "discover"@,
        bins: seq!["6011"@, "644"@, "645"@, "646"@, "647"@, "648"@, "649"@, "65"@],
        lengths: seq![16usize],
        cvv_length: 3,
    }
}

pub open spec fn unionpay() -> NetworkModel {
    NetworkModel {
        name: "UnionPay"@,
        identifier: "unionpay"@,
        bins: seq!["62"@],
        lengths: seq![16usize, 17, 18, 19],
        cvv_length: 3,
    }
}

pub open spec fn diners() -> NetworkModel {
    NetworkModel {
        name: "Diners Club"@,
        identifier: "diners"@,
        bins: seq!["300"@, "301"@, "302"@, "303"@, "304"@, "305"@, "36"@, "38"@],
        lengths: seq![14usize, 16],
        cvv_length: 3,
    }
}

/// The networks in their fixed order of precedence.
pub open spec fn catalog() -> Seq<NetworkModel> {
    seq![visa(), mastercard(), amex(), discover(), unionpay(), diners()]
}

/// The name of the first network, from position `i` of the catalog on, that `num` belongs to.
pub open spec fn detect_from(num: Seq<char>, i: int) -> Option<Seq<char>>
    decreases catalog().len() - i,
{
    if i < 0 || i >= catalog().len() {
        None
    } else if network_matches(catalog()[i], num) {
        Some(catalog()[i].name)
    } else {
        detect_from(num, i + 1)
    }
}

/// The name of the network that `num` belongs to, if any.
pub open spec fn detect(num: Seq<char>) -> Option<Seq<char>> {
    detect_from(num, 0)
}

/// The catalog entry whose identifier is `id`, if any.
pub open spec fn lookup(id: Seq<char>) -> Option<NetworkModel> {
    if exists|i: int| 0 <= i < catalog().len() && #[trigger] catalog()[i].identifier == id {
        let i = choose|i: int| 0 <= i < catalog().len() && #[trigger] catalog()[i].identifier == id;
        Some(catalog()[i])
    } else {
        None
    }
}

/// The entries of the network list: the `random` pseudo-entry, then the catalog.
pub open spec fn network_names() -> Seq<(Seq<char>, Seq<char>)> {
    seq![("random"@, "Random"@)] + catalog().map_values(|n: NetworkModel| (n.identifier, n.name))
}

/// The catalog's identifiers are distinct.
pub proof fn lemma_identifiers_unique()
    ensures
        forall|i: int, j: int|
            0 <= i < catalog().len() && 0 <= j < catalog().len() && i != j
                ==> #[trigger] catalog()[i].identifier != #[trigger] catalog()[j].identifier,
{
    reveal_strlit("visa");
    reveal_strlit("mastercard");
    reveal_strlit("amex");
    reveal_strlit("discover");
    reveal_strlit("unionpay");
    reveal_strlit("diners");
    assert("visa"@[0] != "mastercard"@[0]);
    assert("amex"@[0] != "mastercard"@[0]);
    assert("discover"@[2] != "diners"@[2]);
    assert(forall|i: int, j: int|
        0 <= i < catalog().len() && 0 <= j < catalog().len() && i != j
            ==> catalog()[i].identifier[0] != catalog()[j].identifier[0]
                || catalog()[i].identifier[2] != catalog()[j].identifier[2]);
}

/// Every BIN of the catalog is a string of one to four digits.
pub proof fn lemma_bins_are_short_digit_strings()
    ensures
        forall|i: int, j: int|
            0 <= i < catalog().len() && 0 <= j < catalog()[i].bins.len() ==> {
                &&& all_digits(#[trigger] catalog()[i].bins[j])
                &&& 1 <= catalog()[i].bins[j].len() <= 4
            },
{
    reveal_strlit("4");
    reveal_strlit("51");
    reveal_strlit("52");
    reveal_strlit("53");
    reveal_strlit("54");
    reveal_strlit("55");
    reveal_strlit("34");
    reveal_strlit("37");
    reveal_strlit("6011");
    reveal_strlit("644");
    reveal_strlit("645");
    reveal_strlit("646");
    reveal_strlit("647");
    reveal_strlit("648");
    reveal_strlit("649");
    reveal_strlit("65");
    reveal_strlit("62");
    reveal_strlit("300");
    reveal_strlit("301");
    reveal_strlit("302");
    reveal_strlit("303");
    reveal_strlit("304");
    reveal_strlit("305");
    reveal_strlit("36");
    reveal_strlit("38");
}

impl CardNetwork {
    /// Whether `bin` starts with one of this network's BIN prefixes.
    pub fn matches_bin(&self, bin: &str) -> (r: bool)
        ensures
            r == has_bin_prefix(self@, bin@),
    {
        let mut j: usize = 0;
        while j < self.bins.len()
            invariant
                j <= self.bins@.len(),
                forall|k: int| 0 <= k < j ==> !starts_with(bin@, #[trigger] self@.bins[k]),
            decreases self.bins@.len() - j,
        {
            if str_starts_with(bin, self.bins[j]) {
                assert(self@.bins[j as int] == self.bins@[j as int]@);
                return true;
            }
            j = j + 1;
        }
        false
    }

    /// Whether `length` is one of this network's valid lengths.
    pub fn is_valid_length(&self, length: usize) -> (r: bool)
        ensures
            r == has_length(self@, length as int),
    {
        let mut k: usize = 0;
        while k < self.length.len()
            invariant
                k <= self.length@.len(),
                forall|i: int| 0 <= i < k ==> self.length@[i] != length,
            decreases self.length@.len() - k,
        {
            if self.length[k] == length {
                assert(self@.lengths[k as int] == length);
                return true;
            }
            k = k + 1;
        }
        false
    }
}

/// The value of the first `k` characters of `num` when they are all digits.
fn leading_value(num: &str, k: usize) -> (r: Option<u32>)
    requires
        k <= 4,
        k <= num@.len(),
    ensures
        r == (if all_digits(num@.take(k as int)) {
            Some(decimal_value(num@.take(k as int)) as u32)
        } else {
            None::<u32>
        }),
        r is Some ==> r->0 as nat == decimal_value(num@.take(k as int)),
{
    let mut v: u32 = 0;
    let mut i: usize = 0;
    while i < k
        invariant
            i <= k <= 4,
            k <= num@.len(),
            all_digits(num@.take(i as int)),
            v as nat == decimal_value(num@.take(i as int)),
            v < 1000 || i == 4,
            i <= 3 ==> v < 1000,
            i <= 2 ==> v < 100,
            i <= 1 ==> v < 10,
            i == 0 ==> v == 0,
        decreases k - i,
    {
        let c = num.get_char(i);
        assert(num@.take(i + 1).drop_last() =~= num@.take(i as int));
        if !char_is_digit(c) {
            assert(num@.take(k as int)[i as int] == c);
            return None;
        }
        v = v * 10 + (c as u32 - 48);
        i = i + 1;
        assert(all_digits(num@.take(i as int))) by {
            assert(forall|j: int| 0 <= j < i ==> num@.take(i as int)[j] == num@[j]);
            assert(forall|j: int| 0 <= j < i - 1 ==> num@.take(i - 1)[j] == num@[j]);
        }
    }
    Some(v)
}

/// The process-wide network catalog and its queries.
pub struct CardNetworkRegistry;

impl CardNetworkRegistry {
    /// The catalog, in its order of precedence.
    pub fn get_all_networks() -> (r: Vec<CardNetwork>)
        ensures
            r@.len() == catalog().len(),
            forall|i: int| 0 <= i < r@.len() ==> (#[trigger] r@[i])@ == catalog()[i],
    {
        let r = vec![
            CardNetwork {
                name: "Visa",
                identifier: "visa",
                bins: vec!["4"],
                length: vec![13, 16, 19],
                cvv_length: 3,
            },
            CardNetwork {
                name: "Mastercard",
                identifier: "mastercard",
                bins: vec!["51", "52", "53", "54", "55"],
                length: vec![16],
                cvv_length: 3,
            },
            CardNetwork {
                name: "American Express",
                identifier: "amex",
                bins: vec!["34", "37"],
                length: vec![15],
                cvv_length: 3,
            },
            CardNetwork {
                name: "Discover",
                identifier: "discover",
                bins: vec!["6011", "644", "645", "646", "647", "648", "649", "65"],
                length: vec![16],
                cvv_length: 3,
            },
            CardNetwork {
                name: "UnionPay",
                identifier: "unionpay",
                bins: vec!["62"],
                length: vec![16, 17, 18, 19],
                cvv_length: 3,
            },
            CardNetwork {
                name: "Diners Club",
                identifier: "diners",
                bins: vec!["300", "301", "302", "303", "304", "305", "36", "38"],
                length: vec![14, 16],
                cvv_length: 3,
            },
        ];
        assert(r@[0]@ == catalog()[0]) by { assert(r@[0]@.bins =~= visa().bins); assert(r@[0]@.lengths =~= visa().lengths); }
        assert(r@[1]@ == catalog()[1]) by { assert(r@[1]@.bins =~= mastercard().bins); assert(r@[1]@.lengths =~= mastercard().lengths); }
        assert(r@[2]@ == catalog()[2]) by { assert(r@[2]@.bins =~= amex().bins); assert(r@[2]@.lengths =~= amex().lengths); }
        assert(r@[3]@ == catalog()[3]) by { assert(r@[3]@.bins =~= discover().bins); assert(r@[3]@.lengths =~= discover().lengths); }
        assert(r@[4]@ == catalog()[4]) by { assert(r@[4]@.bins =~= unionpay().bins); assert(r@[4]@.lengths =~= unionpay().lengths); }
        assert(r@[5]@ == catalog()[5]) by { assert(r@[5]@.bins =~= diners().bins); assert(r@[5]@.lengths =~= diners().lengths); }
        r
    }

    /// The name of the first network in the catalog that `card_number` belongs to.
    pub fn detect_network(card_number: &str) -> (r: Option<String>)
        ensures
            match r {
                Some(s) => detect(card_number@) == Some(s@),
                None => detect(card_number@) is None,
            },
    {
        let networks = Self::get_all_networks();
        let len = card_number.unicode_len();
        let mut i: usize = 0;
        while i < networks.len()
            invariant
                networks@.len() == catalog().len(),
                forall|k: int| 0 <= k < networks@.len() ==> (#[trigger] networks@[k])@ == catalog()[k],
                len == card_number@.len(),
                i <= networks@.len(),
                detect(card_number@) == detect_from(card_number@, i as int),
            decreases networks@.len() - i,
        {
            let network = &networks[i];
            assert(network@ == catalog()[i as int]);
            let by_bin = network.matches_bin(card_number) && network.is_valid_length(len);
            let mut by_range = false;
            if len == 16 {
                if str_equal(network.identifier, "mastercard") {
                    if let Some(first_four) = leading_value(card_number, 4) {
                        by_range = 2221 <= first_four && first_four <= 2720;
                    }
                } else if str_equal(network.identifier, "discover") {
                    if let Some(first_three) = leading_value(card_number, 3) {
                        by_range = 644 <= first_three && first_three <= 649;
                    }
                }
            }
            proof {
                reveal_strlit("mastercard");
                reveal_strlit("discover");
                assert("mastercard"@ != "discover"@) by {
                    assert("mastercard"@[0] != "discover"@[0]);
                }
            }
            assert(by_range == range_exception(network@, card_number@));
            if by_bin || by_range {
                return Some(copy_str(network.name));
            }
            i = i + 1;
        }
        None
    }

    /// The catalog entry whose identifier is `identifier`.
    pub fn get_network_by_identifier(identifier: &str) -> (r: Option<CardNetwork>)
        ensures
            match r {
                Some(n) => lookup(identifier@) == Some(n@),
                None => lookup(identifier@) is None,
            },
    {
        let mut networks = Self::get_all_networks();
        let mut i: usize = 0;
        while i < networks.len()
            invariant
                networks@.len() == catalog().len(),
                forall|k: int| 0 <= k < networks@.len() ==> (#[trigger] networks@[k])@ == catalog()[k],
                i <= networks@.len(),
                forall|k: int| 0 <= k < i ==> (#[trigger] catalog()[k]).identifier != identifier@,
            decreases networks@.len() - i,
        {
            if str_equal(networks[i].identifier, identifier) {
                let n = networks.remove(i);
                assert(catalog()[i as int].identifier == identifier@);
                proof {
                    lemma_identifiers_unique();
                    let j = choose|j: int| 0 <= j < catalog().len() && #[trigger] catalog()[j].identifier == identifier@;
                    assert(catalog()[j].identifier == catalog()[i as int].identifier);
                    assert(j == i);
                }
                return Some(n);
            }
            i = i + 1;
        }
        None
    }

    /// The list of selectable networks: `random` first, then the catalog in order.
    pub fn get_network_names() -> (r: Vec<(&'static str, &'static str)>)
        ensures
            r@.len() == network_names().len(),
            forall|i: int| 0 <= i < r@.len() ==> ((#[trigger] r@[i]).0@, r@[i].1@) == network_names()[i],
    {
        let r = vec![
            ("random", "Random"),
            ("visa", "Visa"),
            ("mastercard", "Mastercard"),
            ("amex", "American Express"),
            ("discover", "Discover"),
            ("unionpay", "UnionPay"),
            ("diners", "Diners Club"),
        ];
        assert(forall|i: int| 0 <= i < r@.len() ==> ((#[trigger] r@[i]).0@, r@[i].1@) == network_names()[i]);
        r
    }
}

} // verus!
