//! Synthetic users and placeholder text.

use vstd::prelude::*;
use crate::random::random_between;
use crate::text::{
    all_digits, decimal_string, digit_to_char, join_strings_with, join_with, lowercase_of, push_char, push_decimal,
    string_views, to_lower,
};

verus! {

/// A synthetic user.
#[derive(Debug, Clone)]
pub struct FakeUser {
    pub name: String,
    pub email: String,
    pub phone: String,
    pub address: String,
}

/// The romanization of one name character (`x` for characters outside the tables).
pub open spec fn pinyin_of(c: char) -> Seq<char> {
    match c {
        '张' => "zhang"@, '李' => "li"@, '王' => "wang"@, '刘' => "liu"@, '陈' => "chen"@,
        '杨' => "yang"@, '赵' => "zhao"@, '黄' => "huang"@, '周' => "zhou"@, '吴' => "wu"@,
        '徐' => "xu"@, '孙' => "sun"@, '马' => "ma"@, '朱' => "zhu"@, '胡' => "hu"@,
        '伟' => "wei"@, '芳' => "fang"@, '娜' => "na"@, '敏' => "min"@, '静' => "jing"@,
        '丽' => "li"@, '强' => "qiang"@, '军' => "jun"@, '勇' => "yong"@, '艳' => "yan"@,
        '杰' => "jie"@, '涛' => "tao"@, '明' => "ming"@, '超' => "chao"@, '磊' => "lei"@,
        '华' => "hua"@, '峰' => "feng"@, '鹏' => "peng"@, '辉' => "hui"@, '刚' => "gang"@,
        '平' => "ping"@, '波' => "bo"@, '东' => "dong"@, '文' => "wen"@, '斌' => "bin"@,
        '宇' => "yu"@, '洋' => "yang"@, '飞' => "fei"@, '龙' => "long"@, '浩' => "hao"@,
        _ => "x"@,
    }
}

/// The romanization of a name: the romanizations of its characters, in order.
pub open spec fn romanized(s: Seq<char>) -> Seq<char>
    decreases s.len(),
{
    if s.len() == 0 {
        seq![]
    } else {
        romanized(s.drop_last()) + pinyin_of(s.last())
    }
}

/// The romanization of one name character.
fn pinyin(c: char) -> (r: &'static str)
    ensures
        r@ == pinyin_of(c),
{
    match c {
        '张' => "zhang", '李' => "li", '王' => "wang", '刘' => "liu", '陈' => "chen",
        '杨' => "yang", '赵' => "zhao", '黄' => "huang", '周' => "zhou", '吴' => "wu",
        '徐' => "xu", '孙' => "sun", '马' => "ma", '朱' => "zhu", '胡' => "hu",
        '伟' => "wei", '芳' => "fang", '娜' => "na", '敏' => "min", '静' => "jing",
        '丽' => "li", '强' => "qiang", '军' => "jun", '勇' => "yong", '艳' => "yan",
        '杰' => "jie", '涛' => "tao", '明' => "ming", '超' => "chao", '磊' => "lei",
        '华' => "hua", '峰' => "feng", '鹏' => "peng", '辉' => "hui", '刚' => "gang",
        '平' => "ping", '波' => "bo", '东' => "dong", '文' => "wen", '斌' => "bin",
        '宇' => "yu", '洋' => "yang", '飞' => "fei", '龙' => "long", '浩' => "hao",
        _ => "x",
    }
}

/// Romanizes a Chinese name character by character.
pub fn romanize(name: &str) -> (r: String)
    ensures
        r@ == romanized(name@),
{
    let n = name.unicode_len();
    let mut result = String::new();
    let mut i: usize = 0;
    while i < n
        invariant
            n == name@.len(),
            i <= n,
            result@ == romanized(name@.take(i as int)),
        decreases n - i,
    {
        let c = name.get_char(i);
        result.append(pinyin(c));
        assert(name@.take(i + 1).drop_last() =~= name@.take(i as int));
        i = i + 1;
    }
    assert(name@.take(n as int) =~= name@);
    result
}

/// The characters a surname is drawn from.
pub open spec fn family_chars() -> Seq<char> {
    seq!['张', '李', '王', '刘', '陈', '杨', '赵', '黄', '周', '吴', '徐', '孙', '马', '朱', '胡']
}

/// The characters the second character of a name is drawn from.
pub open spec fn middle_chars() -> Seq<char> {
    seq!['伟', '芳', '娜', '敏', '静', '丽', '强', '军', '勇', '艳', '杰', '涛', '明', '超', '磊']
}

/// The characters the last character of a name is drawn from.
pub open spec fn given_chars() -> Seq<char> {
    seq!['华', '峰', '鹏', '辉', '刚', '平', '波', '东', '文', '斌', '宇', '洋', '飞', '龙', '浩']
}

pub open spec fn cities() -> Seq<Seq<char>> {
    seq!["北京"@, "上海"@, "广州"@, "深圳"@, "杭州"@, "南京"@, "成都"@, "武汉"@, "重庆"@, "西安"@]
}

pub open spec fn districts() -> Seq<Seq<char>> {
    seq!["朝阳"@, "海淀"@, "西城"@, "东城"@, "浦东"@, "黄浦"@, "徐汇"@, "静安"@, "天河"@, "越秀"@]
}

pub open spec fn email_domains() -> Seq<Seq<char>> {
    seq!["gmail.com"@, "163.com"@, "qq.com"@, "outlook.com"@, "example.com"@, "test.com"@]
}

/// A three-character name: a surname, then one character of each other table.
pub open spec fn name_ok(name: Seq<char>) -> bool {
    name.len() == 3 && family_chars().contains(name[0]) && middle_chars().contains(name[1])
        && given_chars().contains(name[2])
}

/// The e-mail address: the romanized name, a number in `100..=998`, `@`, a domain.
pub open spec fn email_ok(name: Seq<char>, email: Seq<char>) -> bool {
    exists|n: nat, d: int|
        100 <= n <= 998 && 0 <= d < email_domains().len()
        && email == romanized(name) + #[trigger] decimal_string(n) + seq!['@'] + #[trigger] email_domains()[d]
}

/// An eleven-digit mobile number: `1`, a digit in `3..=8`, nine more digits.
pub open spec fn phone_ok(phone: Seq<char>) -> bool {
    phone.len() == 11 && phone[0] == '1' && '3' <= phone[1] <= '8' && all_digits(phone)
}

/// An address: city, `市`, district, `区`, a number in `1..=998`, `号`.
pub open spec fn address_ok(address: Seq<char>) -> bool {
    exists|c: int, d: int, n: nat|
        0 <= c < cities().len() && 0 <= d < districts().len() && 1 <= n <= 998
        && address == #[trigger] cities()[c] + "市"@ + #[trigger] districts()[d] + "区"@ + #[trigger] decimal_string(n) + "号"@
}

pub open spec fn user_ok(u: FakeUser) -> bool {
    name_ok(u.name@) && email_ok(u.name@, u.email@) && phone_ok(u.phone@) && address_ok(u.address@)
}

/// A random element of a character table.
fn pick_char(table: &Vec<char>) -> (r: char)
    requires
        table@.len() > 0,
    ensures
        table@.contains(r),
{
    let i = random_between(0, (table.len() - 1) as u64) as usize;
    assert(table@[i as int] == table[i as int]);
    table[i]
}

/// `count` random users.
pub fn generate_fake_users(count: usize) -> (r: Vec<FakeUser>)
    ensures
        r@.len() == count,
        forall|i: int| 0 <= i < r@.len() ==> user_ok(#[trigger] r@[i]),
{
    let family = vec!['张', '李', '王', '刘', '陈', '杨', '赵', '黄', '周', '吴', '徐', '孙', '马', '朱', '胡'];
    let middle = vec!['伟', '芳', '娜', '敏', '静', '丽', '强', '军', '勇', '艳', '杰', '涛', '明', '超', '磊'];
    let given = vec!['华', '峰', '鹏', '辉', '刚', '平', '波', '东', '文', '斌', '宇', '洋', '飞', '龙', '浩'];
    let city_names = vec!["北京", "上海", "广州", "深圳", "杭州", "南京", "成都", "武汉", "重庆", "西安"];
    let district_names = vec!["朝阳", "海淀", "西城", "东城", "浦东", "黄浦", "徐汇", "静安", "天河", "越秀"];
    let domains = vec!["gmail.com", "163.com", "qq.com", "outlook.com", "example.com", "test.com"];
    assert(family@ == family_chars());
    assert(middle@ == middle_chars());
    assert(given@ == given_chars());
    assert(city_names@.map_values(|s: &str| s@) =~= cities());
    assert(district_names@.map_values(|s: &str| s@) =~= districts());
    assert(domains@.map_values(|s: &str| s@) =~= email_domains());
    let mut users: Vec<FakeUser> = Vec::new();
    let mut k: usize = 0;
    while k < count
        invariant
            k <= count,
            users@.len() == k,
            forall|i: int| 0 <= i < k ==> user_ok(#[trigger] users@[i]),
            family@ == family_chars(),
            middle@ == middle_chars(),
            given@ == given_chars(),
            city_names@.len() == cities().len(),
            forall|i: int| 0 <= i < cities().len() ==> (#[trigger] city_names@[i])@ == cities()[i],
            district_names@.len() == districts().len(),
            forall|i: int| 0 <= i < districts().len() ==> (#[trigger] district_names@[i])@ == districts()[i],
            domains@.len() == email_domains().len(),
            forall|i: int| 0 <= i < email_domains().len() ==> (#[trigger] domains@[i])@ == email_domains()[i],
        decreases count - k,
    {
        let mut name = String::new();
        push_char(&mut name, pick_char(&family));
        push_char(&mut name, pick_char(&middle));
        push_char(&mut name, pick_char(&given));

        let mut email = romanize(name.as_str());
        let number = random_between(100, 998);
        push_decimal(&mut email, number);
        push_char(&mut email, '@');
        let d = random_between(0, (domains.len() - 1) as u64) as usize;
        email.append(domains[d]);
        assert(email@ =~= romanized(name@) + decimal_string(number as nat) + seq!['@'] + email_domains()[d as int]);

        let mut phone = String::new();
        push_char(&mut phone, '1');
        push_char(&mut phone, digit_to_char(random_between(3, 8) as u32));
        let mut j: usize = 0;
        while j < 9
            invariant
                j <= 9,
                phone@.len() == 2 + j,
                phone@[0] == '1',
                '3' <= phone@[1] <= '8',
                all_digits(phone@),
            decreases 9 - j,
        {
            push_char(&mut phone, digit_to_char(random_between(0, 9) as u32));
            j = j + 1;
        }

        let c = random_between(0, (city_names.len() - 1) as u64) as usize;
        let di = random_between(0, (district_names.len() - 1) as u64) as usize;
        let street = random_between(1, 998);
        let mut address = String::from_str(city_names[c]);
        address.append("市");
        address.append(district_names[di]);
        address.append("区");
        push_decimal(&mut address, street);
        address.append("号");
        assert(address@ =~= cities()[c as int] + "市"@ + districts()[di as int] + "区"@ + decimal_string(street as nat) + "号"@);

        let user = FakeUser { name, email, phone, address };
        assert(user_ok(user));
        users.push(user);
        k = k + 1;
    }
    users
}

/// The vocabulary of the placeholder text.
pub open spec fn lorem_words() -> Seq<Seq<char>> {
    seq![
        "Lorem"@, "ipsum"@, "dolor"@, "sit"@, "amet"@, "consectetur"@, "adipiscing"@, "elit"@,
        "sed"@, "do"@, "eiusmod"@, "tempor"@, "incididunt"@, "ut"@, "labore"@, "et"@, "dolore"@,
        "magna"@, "aliqua"@, "Ut"@, "enim"@, "ad"@, "minim"@, "veniam"@, "quis"@, "nostrud"@,
        "exercitation"@, "ullamco"@, "laboris"@, "nisi"@, "ut"@, "aliquip"@, "ex"@, "ea"@,
        "commodo"@, "consequat"@, "Duis"@, "aute"@, "irure"@, "dolor"@, "in"@, "reprehenderit"@,
        "in"@, "voluptate"@, "velit"@, "esse"@, "cillum"@, "dolore"@, "eu"@, "fugiat"@, "nulla"@,
        "pariatur"@, "Excepteur"@, "sint"@, "occaecat"@, "cupidatat"@, "non"@, "proident"@,
        "sunt"@, "in"@, "culpa"@, "qui"@, "officia"@, "deserunt"@, "mollit"@, "anim"@, "id"@,
        "est"@, "laborum"@,
    ]
}

/// The `k`-th word of a paragraph: the first as written, the others lowercased.
pub open spec fn word_form(k: int, w: Seq<char>) -> Seq<char> {
    if k == 0 { w } else { lowercase_of(w) }
}

/// The words of the paragraph made of the vocabulary words at `picks`.
pub open spec fn paragraph_words(picks: Seq<int>) -> Seq<Seq<char>> {
    Seq::new(picks.len(), |k: int| word_form(k, lorem_words()[picks[k]]))
}

/// The paragraph made of the vocabulary words at `picks`.
pub open spec fn paragraph_text(picks: Seq<int>) -> Seq<char> {
    join_with(paragraph_words(picks), seq![' ']) + seq!['.']
}

/// Whether `p` is a paragraph of 50 to 99 vocabulary words.
pub open spec fn paragraph_ok(p: Seq<char>) -> bool {
    exists|picks: Seq<int>|
        50 <= picks.len() <= 99
        && (forall|k: int| 0 <= k < picks.len() ==> 0 <= #[trigger] picks[k] < lorem_words().len())
        && p == #[trigger] paragraph_text(picks)
}

/// Whether `text` is `n` such paragraphs separated by blank lines.
pub open spec fn lorem_ok(text: Seq<char>, n: nat) -> bool {
    exists|ps: Seq<Seq<char>>|
        ps.len() == n && (forall|i: int| 0 <= i < ps.len() ==> paragraph_ok(#[trigger] ps[i]))
        && text == #[trigger] join_with(ps, "\n\n"@)
}

/// `paragraphs` paragraphs of placeholder text separated by blank lines.
pub fn generate_lorem_ipsum(paragraphs: usize) -> (r: String)
    ensures
        lorem_ok(r@, paragraphs as nat),
{
    let words = vec![
        "Lorem", "ipsum", "dolor", "sit", "amet", "consectetur", "adipiscing", "elit",
        "sed", "do", "eiusmod", "tempor", "incididunt", "ut", "labore", "et", "dolore",
        "magna", "aliqua", "Ut", "enim", "ad", "minim", "veniam", "quis", "nostrud",
        "exercitation", "ullamco", "laboris", "nisi", "ut", "aliquip", "ex", "ea",
        "commodo", "consequat", "Duis", "aute", "irure", "dolor", "in", "reprehenderit",
        "in", "voluptate", "velit", "esse", "cillum", "dolore", "eu", "fugiat", "nulla",
        "pariatur", "Excepteur", "sint", "occaecat", "cupidatat", "non", "proident",
        "sunt", "in", "culpa", "qui", "officia", "deserunt", "mollit", "anim", "id",
        "est", "laborum",
    ];
    assert(words@.map_values(|s: &str| s@) =~= lorem_words());
    let mut result: Vec<String> = Vec::new();
    let mut p: usize = 0;
    while p < paragraphs
        invariant
            p <= paragraphs,
            result@.len() == p,
            forall|i: int| 0 <= i < p ==> paragraph_ok(#[trigger] result@[i]@),
            words@.len() == lorem_words().len(),
            forall|i: int| 0 <= i < lorem_words().len() ==> (#[trigger] words@[i])@ == lorem_words()[i],
        decreases paragraphs - p,
    {
        let word_count = random_between(50, 99) as usize;
        let mut paragraph: Vec<String> = Vec::new();
        let ghost mut picks: Seq<int> = seq![];
        let mut i: usize = 0;
        while i < word_count
            invariant
                i <= word_count <= 99,
                paragraph@.len() == i,
                picks.len() == i,
                forall|k: int| 0 <= k < i ==> 0 <= #[trigger] picks[k] < lorem_words().len(),
                forall|k: int| 0 <= k < i ==> (#[trigger] paragraph@[k])@ == word_form(k, lorem_words()[picks[k]]),
                words@.len() == lorem_words().len(),
                forall|j: int| 0 <= j < lorem_words().len() ==> (#[trigger] words@[j])@ == lorem_words()[j],
            decreases word_count - i,
        {
            let w = random_between(0, (words.len() - 1) as u64) as usize;
            let word = if i == 0 {
                String::from_str(words[w])
            } else {
                to_lower(words[w])
            };
            paragraph.push(word);
            proof {
                picks = picks.push(w as int);
            }
            i = i + 1;
        }
        let mut text = join_strings_with(&paragraph, " ");
        push_char(&mut text, '.');
        proof {
            reveal_strlit(" ");
            assert(" "@ =~= seq![' ']);
            assert(string_views(paragraph@) =~= paragraph_words(picks));
            assert(text@ == paragraph_text(picks));
        }
        result.push(text);
        p = p + 1;
    }
    let out = join_strings_with(&result, "\n\n");
    proof {
        assert(lorem_ok(out@, paragraphs as nat)) by {
            assert(string_views(result@).len() == paragraphs);
            assert(forall|i: int| 0 <= i < paragraphs ==> paragraph_ok(#[trigger] string_views(result@)[i]));
        }
    }
    out
}

} // verus!
