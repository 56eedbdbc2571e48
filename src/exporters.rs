//! Renderings of card records: pipe-separated lines, SQL, human-readable card
//! blocks, CSV and XML.

use vstd::prelude::*;
use quick_xml::events::{BytesDecl, BytesEnd, BytesStart, BytesText, Event};
use std::io::Cursor;
use crate::card_generator::{CardData, opt_view};
use crate::text::{join_strings_with, join_with, string_views, decimal_string, push_char, push_decimal, push_two_digits, skip_chars, skip_str, two_digit_string};

verus! {

/// `lines` joined with newlines.
pub open spec fn join_lines(lines: Seq<Seq<char>>) -> Seq<char> {
    join_with(lines, seq!['\n'])
}

/// One pipe line: number, `MM/YY`, and the CVV when there is one.
pub open spec fn pipe_line(c: CardData) -> Seq<char> {
    let base = c.number@ + seq!['|'] + c.exp_month@ + seq!['/'] + skip_chars(c.exp_year@, 2);
    match c.cvv {
        Some(v) => base + seq!['|'] + v@,
        None => base,
    }
}

/// An amount of cents written with two decimals.
pub open spec fn money_string(cents: u64) -> Seq<char> {
    decimal_string((cents / 100) as nat) + seq!['.'] + two_digit_string((cents % 100) as nat)
}

/// A string quoted for SQL, or `NULL` when absent.
pub open spec fn sql_value(v: Option<Seq<char>>) -> Seq<char> {
    match v {
        Some(s) => seq!['\''] + s + seq!['\''],
        None => "NULL"@,
    }
}

/// A quoted SQL string followed by a separator.
pub open spec fn quoted(s: Seq<char>) -> Seq<char> {
    seq!['\''] + s + "', "@
}

/// The `INSERT` statement of one record.
pub open spec fn sql_insert(c: CardData, table: Seq<char>) -> Seq<char> {
    "INSERT INTO "@ + table
        + " (number, network, exp_month, exp_year, expiry, cvv, balance, currency, bin) VALUES ("@
        + quoted(c.number@) + quoted(c.network@) + quoted(c.exp_month@) + quoted(c.exp_year@)
        + quoted(c.expiry@) + sql_value(opt_view(c.cvv)) + ", "@
        + (match c.balance { Some(b) => money_string(b), None => "NULL"@ }) + ", "@
        + sql_value(opt_view(c.currency)) + ", '"@ + c.bin@ + "');"@
}

/// The table definition.
pub open spec fn sql_create(table: Seq<char>) -> Seq<Seq<char>> {
    seq![
        "CREATE TABLE IF NOT EXISTS "@ + table + " ("@,
        "    number VARCHAR(20),"@,
        "    network VARCHAR(50),"@,
        "    exp_month VARCHAR(4),"@,
        "    exp_year VARCHAR(4),"@,
        "    expiry VARCHAR(10),"@,
        "    cvv VARCHAR(4),"@,
        "    balance DECIMAL(10,2),"@,
        "    currency VARCHAR(10),"@,
        "    bin VARCHAR(20)"@,
        ");"@,
        seq![],
    ]
}

/// The lines of the SQL export.
pub open spec fn sql_lines(cards: Seq<CardData>, table: Seq<char>) -> Seq<Seq<char>> {
    sql_create(table) + cards.map_values(|c: CardData| sql_insert(c, table))
}

/// The display block of the `n`-th record (counting from one).
pub open spec fn card_block(c: CardData, n: nat) -> Seq<char> {
    let head = "🔖 卡片 #"@ + decimal_string(n) + seq!['\n'] + "💳 卡号: "@ + c.number@ + seq!['\n']
        + "🌐 网络: "@ + c.network@ + seq!['\n'] + "📅 过期: "@ + c.expiry@;
    let with_cvv = match c.cvv {
        Some(v) => head + seq!['\n'] + "🔒 CVV: "@ + v@,
        None => head,
    };
    let with_balance = match c.balance {
        Some(b) => with_cvv + seq!['\n'] + "💰 余额: "@ + money_string(b) + seq![' ']
            + match c.currency { Some(cur) => cur@, None => "USD"@ },
        None => with_cvv,
    };
    with_balance + seq!['\n'] + Seq::new(40, |i: int| '─')
}

/// Appends `cents` with two decimals.
fn push_money(out: &mut String, cents: u64)
    ensures
        final(out)@ == old(out)@ + money_string(cents),
{
    push_decimal(out, cents / 100);
    push_char(out, '.');
    push_two_digits(out, cents % 100);
    assert(final(out)@ =~= old(out)@ + money_string(cents));
}

/// One pipe line.
fn pipe_line_of(card: &CardData) -> (r: String)
    ensures
        r@ == pipe_line(*card),
{
    let mut line = String::from_str(card.number.as_str());
    push_char(&mut line, '|');
    line.append(card.exp_month.as_str());
    push_char(&mut line, '/');
    let year_short = skip_str(card.exp_year.as_str(), 2);
    line.append(year_short.as_str());
    match &card.cvv {
        Some(v) => {
            push_char(&mut line, '|');
            line.append(v.as_str());
        },
        None => {},
    }
    assert(line@ =~= pipe_line(*card));
    line
}

/// The records as pipe-separated lines: `number|MM/YY|cvv`.
pub fn export_to_pipe(cards: &[CardData]) -> (r: String)
    ensures
        r@ == join_lines(cards@.map_values(|c: CardData| pipe_line(c))),
{
    let ghost target = cards@.map_values(|c: CardData| pipe_line(c));
    let mut lines: Vec<String> = Vec::new();
    let mut i: usize = 0;
    while i < cards.len()
        invariant
            i <= cards@.len(),
            target.len() == cards@.len(),
            forall|j: int| 0 <= j < cards@.len() ==> #[trigger] target[j] == pipe_line(cards@[j]),
            lines@.len() == i,
            forall|j: int| 0 <= j < i ==> (#[trigger] lines@[j])@ == target[j],
        decreases cards@.len() - i,
    {
        lines.push(pipe_line_of(&cards[i]));
        i = i + 1;
    }
    assert(string_views(lines@) =~= target);
    join_strings(&lines)
}

/// The strings of `lines` joined with newlines.
fn join_strings(lines: &Vec<String>) -> (r: String)
    ensures
        r@ == join_lines(string_views(lines@)),
{
    proof {
        reveal_strlit("\n");
        assert("\n"@ =~= seq!['\n']);
    }
    join_strings_with(lines, "\n")
}

/// Appends a quoted SQL string or `NULL`.
fn push_sql_value(out: &mut String, v: &Option<String>)
    ensures
        final(out)@ == old(out)@ + sql_value(opt_view(*v)),
{
    match v {
        Some(s) => {
            push_char(out, '\'');
            out.append(s.as_str());
            push_char(out, '\'');
        },
        None => {
            out.append("NULL");
        },
    }
    assert(final(out)@ =~= old(out)@ + sql_value(opt_view(*v)));
}

/// Appends a quoted SQL string and a separator.
fn push_quoted(out: &mut String, s: &String)
    ensures
        final(out)@ == old(out)@ + quoted(s@),
{
    push_char(out, '\'');
    out.append(s.as_str());
    out.append("', ");
    assert(final(out)@ =~= old(out)@ + quoted(s@));
}

/// The `INSERT` statement of one record.
fn sql_insert_of(card: &CardData, table_name: &str) -> (r: String)
    ensures
        r@ == sql_insert(*card, table_name@),
{
    let mut s = String::from_str("INSERT INTO ");
    s.append(table_name);
    s.append(" (number, network, exp_month, exp_year, expiry, cvv, balance, currency, bin) VALUES (");
    push_quoted(&mut s, &card.number);
    push_quoted(&mut s, &card.network);
    push_quoted(&mut s, &card.exp_month);
    push_quoted(&mut s, &card.exp_year);
    push_quoted(&mut s, &card.expiry);
    push_sql_value(&mut s, &card.cvv);
    s.append(", ");
    match card.balance {
        Some(b) => push_money(&mut s, b),
        None => s.append("NULL"),
    }
    s.append(", ");
    push_sql_value(&mut s, &card.currency);
    s.append(", '");
    s.append(card.bin.as_str());
    s.append("');");
    assert(s@ =~= sql_insert(*card, table_name@));
    s
}

/// A `CREATE TABLE` statement for `table_name` followed by one `INSERT` per record.
pub fn export_to_sql(cards: &[CardData], table_name: &str) -> (r: String)
    ensures
        r@ == join_lines(sql_lines(cards@, table_name@)),
{
    let mut first = String::from_str("CREATE TABLE IF NOT EXISTS ");
    first.append(table_name);
    first.append(" (");
    let mut lines: Vec<String> = vec![
        first,
        String::from_str("    number VARCHAR(20),"),
        String::from_str("    network VARCHAR(50),"),
        String::from_str("    exp_month VARCHAR(4),"),
        String::from_str("    exp_year VARCHAR(4),"),
        String::from_str("    expiry VARCHAR(10),"),
        String::from_str("    cvv VARCHAR(4),"),
        String::from_str("    balance DECIMAL(10,2),"),
        String::from_str("    currency VARCHAR(10),"),
        String::from_str("    bin VARCHAR(20)"),
        String::from_str(");"),
        String::new(),
    ];
    let ghost target = sql_lines(cards@, table_name@);
    assert(string_views(lines@) =~= sql_create(table_name@));
    let mut i: usize = 0;
    while i < cards.len()
        invariant
            i <= cards@.len(),
            target == sql_lines(cards@, table_name@),
            lines@.len() == 12 + i,
            forall|j: int| 0 <= j < 12 + i ==> (#[trigger] lines@[j])@ == target[j],
        decreases cards@.len() - i,
    {
        let line = sql_insert_of(&cards[i], table_name);
        assert(target[12 + i as int] == sql_insert(cards@[i as int], table_name@));
        lines.push(line);
        i = i + 1;
    }
    assert(string_views(lines@) =~= target);
    join_strings(&lines)
}

/// The display block of one record.
fn card_block_of(card: &CardData, n: u64) -> (r: String)
    ensures
        r@ == card_block(*card, n as nat),
{
    let mut s = String::from_str("🔖 卡片 #");
    push_decimal(&mut s, n);
    push_char(&mut s, '\n');
    s.append("💳 卡号: ");
    s.append(card.number.as_str());
    push_char(&mut s, '\n');
    s.append("🌐 网络: ");
    s.append(card.network.as_str());
    push_char(&mut s, '\n');
    s.append("📅 过期: ");
    s.append(card.expiry.as_str());
    match &card.cvv {
        Some(v) => {
            push_char(&mut s, '\n');
            s.append("🔒 CVV: ");
            s.append(v.as_str());
        },
        None => {},
    }
    match card.balance {
        Some(b) => {
            push_char(&mut s, '\n');
            s.append("💰 余额: ");
            push_money(&mut s, b);
            push_char(&mut s, ' ');
            match &card.currency {
                Some(c) => s.append(c.as_str()),
                None => s.append("USD"),
            }
        },
        None => {},
    }
    push_char(&mut s, '\n');
    let ghost before_rule = s@;
    let mut k: usize = 0;
    while k < 40
        invariant
            k <= 40,
            s@ == before_rule + Seq::new(k as nat, |i: int| '─'),
        decreases 40 - k,
    {
        push_char(&mut s, '─');
        k = k + 1;
        assert(s@ =~= before_rule + Seq::new(k as nat, |i: int| '─'));
    }
    assert(s@ =~= card_block(*card, n as nat));
    s
}

/// The records as display blocks, numbered from one, each closed by a rule.
pub fn export_to_card(cards: &[CardData]) -> (r: String)
    ensures
        r@ == join_lines(Seq::new(cards@.len(), |i: int| card_block(cards@[i], (i + 1) as nat))),
{
    let ghost target = Seq::new(cards@.len(), |i: int| card_block(cards@[i], (i + 1) as nat));
    let mut blocks: Vec<String> = Vec::new();
    let mut i: usize = 0;
    while i < cards.len()
        invariant
            i <= cards@.len(),
            target.len() == cards@.len(),
            forall|j: int| 0 <= j < cards@.len() ==> #[trigger] target[j] == card_block(cards@[j], (j + 1) as nat),
            blocks@.len() == i,
            forall|j: int| 0 <= j < i ==> (#[trigger] blocks@[j])@ == target[j],
        decreases cards@.len() - i,
    {
        let block = card_block_of(&cards[i], (i as u64) + 1);
        blocks.push(block);
        i = i + 1;
    }
    assert(string_views(blocks@) =~= target);
    join_strings(&blocks)
}

/// What the `csv` crate writes for one record of `fields`, terminator included.
pub uninterp spec fn csv_line_of(fields: Seq<Seq<char>>) -> Seq<char>;

/// Relies on `csv::Writer` (`from_writer`, `write_record`, `into_inner`) writing
/// one record into a fresh in-memory buffer; the bytes depend on the fields
/// alone. The writer fails only on I/O errors, which a `Vec` never raises, and
/// on records of unequal length, which a fresh writer's first record cannot be;
/// fields taken from strings give valid UTF-8.
#[verifier::external_body]
fn csv_record(fields: &Vec<String>) -> (r: Result<String, String>)
    ensures
        r is Ok,
        r matches Ok(s) ==> s@ == csv_line_of(string_views(fields@)),
{
    let mut wtr = csv::Writer::from_writer(vec![]);
    wtr.write_record(fields).map_err(|e| e.to_string())?;
    let data = wtr.into_inner().map_err(|e| e.to_string())?;
    String::from_utf8(data).map_err(|e| e.to_string())
}

/// The CSV column names.
pub open spec fn csv_header_fields() -> Seq<Seq<char>> {
    seq!["number"@, "network"@, "exp_month"@, "exp_year"@, "expiry"@, "cvv"@, "balance"@, "currency"@, "bin"@]
}

/// An optional string as a CSV field: blank when absent.
pub open spec fn or_blank(v: Option<Seq<char>>) -> Seq<char> {
    match v {
        Some(s) => s,
        None => seq![],
    }
}

/// The CSV fields of one record, in column order.
pub open spec fn csv_fields_of(c: CardData) -> Seq<Seq<char>> {
    seq![
        c.number@, c.network@, c.exp_month@, c.exp_year@, c.expiry@, or_blank(opt_view(c.cvv)),
        match c.balance { Some(b) => money_string(b), None => seq![] },
        or_blank(opt_view(c.currency)), c.bin@,
    ]
}

/// The CSV text: the header line, then one line per record.
pub open spec fn csv_text(cards: Seq<CardData>) -> Seq<char>
    decreases cards.len(),
{
    if cards.len() == 0 {
        csv_line_of(csv_header_fields())
    } else {
        csv_text(cards.drop_last()) + csv_line_of(csv_fields_of(cards.last()))
    }
}

/// The CSV column names.
pub fn csv_header() -> (r: Vec<String>)
    ensures
        string_views(r@) == csv_header_fields(),
{
    let r = vec![
        String::from_str("number"),
        String::from_str("network"),
        String::from_str("exp_month"),
        String::from_str("exp_year"),
        String::from_str("expiry"),
        String::from_str("cvv"),
        String::from_str("balance"),
        String::from_str("currency"),
        String::from_str("bin"),
    ];
    assert(string_views(r@) =~= csv_header_fields());
    r
}

/// An owned copy of an optional string, blank when absent.
fn blank_or(v: &Option<String>) -> (r: String)
    ensures
        r@ == or_blank(opt_view(*v)),
{
    match v {
        Some(s) => String::from_str(s.as_str()),
        None => String::new(),
    }
}

/// The CSV fields of one record, in column order.
pub fn csv_fields(card: &CardData) -> (r: Vec<String>)
    ensures
        string_views(r@) == csv_fields_of(*card),
{
    let mut balance = String::new();
    match card.balance {
        Some(b) => push_money(&mut balance, b),
        None => {},
    }
    assert(balance@ =~= match card.balance { Some(b) => money_string(b), None => seq![] });
    let r = vec![
        String::from_str(card.number.as_str()),
        String::from_str(card.network.as_str()),
        String::from_str(card.exp_month.as_str()),
        String::from_str(card.exp_year.as_str()),
        String::from_str(card.expiry.as_str()),
        blank_or(&card.cvv),
        balance,
        blank_or(&card.currency),
        String::from_str(card.bin.as_str()),
    ];
    assert(string_views(r@) =~= csv_fields_of(*card));
    r
}

/// The records as CSV with a header line; blank fields stand for absent values.
pub fn export_to_csv(cards: &[CardData]) -> (r: Result<String, String>)
    ensures
        r is Ok,
        r matches Ok(s) ==> s@ == csv_text(cards@),
{
    let mut out = csv_record(&csv_header())?;
    let mut i: usize = 0;
    while i < cards.len()
        invariant
            i <= cards@.len(),
            out@ == csv_text(cards@.take(i as int)),
        decreases cards@.len() - i,
    {
        let line = csv_record(&csv_fields(&cards[i]))?;
        out.append(line.as_str());
        assert(cards@.take(i + 1).drop_last() =~= cards@.take(i as int));
        i = i + 1;
    }
    assert(cards@.take(cards@.len() as int) =~= cards@);
    Ok(out)
}

/// One XML writing step.
pub enum XmlEvent {
    /// The declaration, with its version and encoding.
    Decl(String, String),
    Start(String),
    Text(String),
    End(String),
}

/// An event as a tag (0 declaration, 1 start, 2 text, 3 end) and its strings.
pub open spec fn event_view(e: XmlEvent) -> (nat, Seq<char>, Seq<char>) {
    match e {
        XmlEvent::Decl(v, enc) => (0, v@, enc@),
        XmlEvent::Start(n) => (1, n@, seq![]),
        XmlEvent::Text(t) => (2, t@, seq![]),
        XmlEvent::End(n) => (3, n@, seq![]),
    }
}

pub open spec fn event_views(es: Seq<XmlEvent>) -> Seq<(nat, Seq<char>, Seq<char>)> {
    es.map_values(|e: XmlEvent| event_view(e))
}

/// What quick-xml's writer, indenting by two spaces, makes of a run of events.
pub uninterp spec fn xml_of(events: Seq<(nat, Seq<char>, Seq<char>)>) -> Seq<char>;

/// Relies on `quick_xml::Writer` (`new_with_indent`, `write_event`, `into_inner`)
/// writing the events into an in-memory buffer; the text depends on the events
/// alone. The writer fails only on I/O errors, which a `Vec` never raises, and
/// it writes UTF-8 from the strings it is given.
#[verifier::external_body]
fn write_xml(events: &Vec<XmlEvent>) -> (r: Result<String, String>)
    ensures
        r is Ok,
        r matches Ok(s) ==> s@ == xml_of(event_views(events@)),
{
    let mut w = quick_xml::Writer::new_with_indent(Cursor::new(Vec::new()), b' ', 2);
    for e in events {
        let ev = match e {
            XmlEvent::Decl(v, enc) => Event::Decl(BytesDecl::new(v, Some(enc), None)),
            XmlEvent::Start(n) => Event::Start(BytesStart::new(n)),
            XmlEvent::Text(t) => Event::Text(BytesText::new(t)),
            XmlEvent::End(n) => Event::End(BytesEnd::new(n)),
        };
        w.write_event(ev).map_err(|e| e.to_string())?;
    }
    String::from_utf8(w.into_inner().into_inner()).map_err(|e| e.to_string())
}

/// An element holding text: start, text, end.
pub open spec fn xml_element(name: Seq<char>, content: Seq<char>) -> Seq<(nat, Seq<char>, Seq<char>)> {
    seq![(1nat, name, Seq::<char>::empty()), (2nat, content, Seq::<char>::empty()), (3nat, name, Seq::<char>::empty())]
}

/// An element for a present value; nothing for an absent one.
pub open spec fn xml_optional(name: Seq<char>, v: Option<Seq<char>>) -> Seq<(nat, Seq<char>, Seq<char>)> {
    match v {
        Some(s) => xml_element(name, s),
        None => seq![],
    }
}

/// The events of one `<card>`: its fields in column order, absent ones left out.
pub open spec fn card_xml_events(c: CardData) -> Seq<(nat, Seq<char>, Seq<char>)> {
    seq![(1nat, "card"@, Seq::<char>::empty())]
        + xml_element("number"@, c.number@)
        + xml_element("network"@, c.network@)
        + xml_element("exp_month"@, c.exp_month@)
        + xml_element("exp_year"@, c.exp_year@)
        + xml_element("expiry"@, c.expiry@)
        + xml_optional("cvv"@, opt_view(c.cvv))
        + xml_optional("balance"@, match c.balance { Some(b) => Some(money_string(b)), None => None })
        + xml_optional("currency"@, opt_view(c.currency))
        + xml_element("bin"@, c.bin@)
        + seq![(3nat, "card"@, Seq::<char>::empty())]
}

/// The events of all cards, in order.
pub open spec fn cards_xml_events(cards: Seq<CardData>) -> Seq<(nat, Seq<char>, Seq<char>)>
    decreases cards.len(),
{
    if cards.len() == 0 {
        seq![]
    } else {
        cards_xml_events(cards.drop_last()) + card_xml_events(cards.last())
    }
}

/// The events of the document: the declaration, then `<cards>` around every card.
pub open spec fn xml_event_views(cards: Seq<CardData>) -> Seq<(nat, Seq<char>, Seq<char>)> {
    seq![(0nat, "1.0"@, "UTF-8"@), (1nat, "cards"@, Seq::<char>::empty())]
        + cards_xml_events(cards)
        + seq![(3nat, "cards"@, Seq::<char>::empty())]
}

/// Appends one event.
fn push_event(events: &mut Vec<XmlEvent>, e: XmlEvent)
    ensures
        event_views(final(events)@) == event_views(old(events)@).push(event_view(e)),
{
    events.push(e);
    assert(event_views(final(events)@) =~= event_views(old(events)@).push(event_view(e)));
}

/// Appends an element holding `content`.
fn push_element(events: &mut Vec<XmlEvent>, name: &str, content: &str)
    ensures
        event_views(final(events)@) == event_views(old(events)@) + xml_element(name@, content@),
{
    push_event(events, XmlEvent::Start(String::from_str(name)));
    push_event(events, XmlEvent::Text(String::from_str(content)));
    push_event(events, XmlEvent::End(String::from_str(name)));
    assert(event_views(final(events)@) =~= event_views(old(events)@) + xml_element(name@, content@));
}

/// Appends an element for a present value.
fn push_optional(events: &mut Vec<XmlEvent>, name: &str, v: &Option<String>)
    ensures
        event_views(final(events)@) == event_views(old(events)@) + xml_optional(name@, opt_view(*v)),
{
    match v {
        Some(s) => push_element(events, name, s.as_str()),
        None => {
            assert(event_views(old(events)@) + xml_optional(name@, opt_view(*v)) =~= event_views(old(events)@));
        },
    }
}

/// Appends the events of one card.
fn push_card_events(events: &mut Vec<XmlEvent>, card: &CardData)
    ensures
        event_views(final(events)@) == event_views(old(events)@) + card_xml_events(*card),
{
    push_event(events, XmlEvent::Start(String::from_str("card")));
    push_element(events, "number", card.number.as_str());
    push_element(events, "network", card.network.as_str());
    push_element(events, "exp_month", card.exp_month.as_str());
    push_element(events, "exp_year", card.exp_year.as_str());
    push_element(events, "expiry", card.expiry.as_str());
    push_optional(events, "cvv", &card.cvv);
    let balance = match card.balance {
        Some(b) => {
            let mut m = String::new();
            push_money(&mut m, b);
            Some(m)
        },
        None => None,
    };
    push_optional(events, "balance", &balance);
    push_optional(events, "currency", &card.currency);
    push_element(events, "bin", card.bin.as_str());
    push_event(events, XmlEvent::End(String::from_str("card")));
    assert(event_views(final(events)@) =~= event_views(old(events)@) + card_xml_events(*card));
}

/// The XML events of a document listing the records.
pub fn xml_events(cards: &[CardData]) -> (r: Vec<XmlEvent>)
    ensures
        event_views(r@) == xml_event_views(cards@),
{
    let mut events: Vec<XmlEvent> = Vec::new();
    push_event(&mut events, XmlEvent::Decl(String::from_str("1.0"), String::from_str("UTF-8")));
    push_event(&mut events, XmlEvent::Start(String::from_str("cards")));
    let ghost head = event_views(events@);
    assert(head =~= seq![(0nat, "1.0"@, "UTF-8"@), (1nat, "cards"@, Seq::<char>::empty())]);
    let mut i: usize = 0;
    while i < cards.len()
        invariant
            i <= cards@.len(),
            head == seq![(0nat, "1.0"@, "UTF-8"@), (1nat, "cards"@, Seq::<char>::empty())],
            event_views(events@) == head + cards_xml_events(cards@.take(i as int)),
        decreases cards@.len() - i,
    {
        push_card_events(&mut events, &cards[i]);
        assert(cards@.take(i + 1).drop_last() =~= cards@.take(i as int));
        assert(head + cards_xml_events(cards@.take(i + 1)) =~= head + cards_xml_events(cards@.take(i as int))
            + card_xml_events(cards@[i as int]));
        i = i + 1;
    }
    push_event(&mut events, XmlEvent::End(String::from_str("cards")));
    assert(cards@.take(cards@.len() as int) =~= cards@);
    assert(event_views(events@) =~= xml_event_views(cards@));
    events
}

/// The records as an indented XML document: `<cards>` holding one `<card>` per
/// record, with an element for each present field.
pub fn export_to_xml(cards: &[CardData]) -> (r: Result<String, String>)
    ensures
        r is Ok,
        r matches Ok(s) ==> s@ == xml_of(xml_event_views(cards@)),
{
    write_xml(&xml_events(cards))
}

} // verus!
