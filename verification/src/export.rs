//! CSV export of the item list and the history: the columns of each table,
//! numbers in decimal, and the UTF-8 byte order mark that lets spreadsheet
//! programs read Thai text. The CSV encoding itself is the `csv` crate's.

use vstd::prelude::*;
use crate::models::{tx_label, Category, Item, Location, Transaction};
use crate::queries::{digit_char, digit_text};
use crate::views::{category_name, location_name, name_of};

verus! {

// ───────────────────────────────── decimals ─────────────────────────────────

/// The decimal digits of a natural number, most significant first.
pub open spec fn digits_of(m: nat) -> Seq<char>
    decreases m,
{
    if m < 10 {
        seq![digit_char(m as int)]
    } else {
        digits_of(m / 10).push(digit_char((m % 10) as int))
    }
}

/// The decimal text of an integer, with a leading `-` when negative.
pub open spec fn decimal(n: int) -> Seq<char> {
    if n < 0 {
        seq!['-'] + digits_of((-n) as nat)
    } else {
        digits_of(n as nat)
    }
}

fn push_digits(s: &mut String, m: u64)
    ensures
        final(s)@ == old(s)@ + digits_of(m as nat),
    decreases m,
{
    if m >= 10 {
        push_digits(s, m / 10);
    }
    s.append(digit_text((m % 10) as i64));
    proof {
        if m >= 10 {
            assert(old(s)@ + digits_of(m as nat) =~= old(s)@ + digits_of((m / 10) as nat) + seq![
                digit_char((m % 10) as int),
            ]);
        } else {
            assert(old(s)@ + digits_of(m as nat) =~= old(s)@ + seq![digit_char((m % 10) as int)]);
        }
    }
}

/// The decimal text of a number, as `to_string` writes it.
pub fn decimal_string(n: i64) -> (r: String)
    ensures
        r@ == decimal(n as int),
{
    let mut s = String::new();
    if n < 0 {
        s.append("-");
        let m: u64 = (0i128 - n as i128) as u64;
        proof {
            reveal_strlit("-");
        }
        push_digits(&mut s, m);
        assert(s@ =~= seq!['-'] + digits_of((-n) as nat));
    } else {
        push_digits(&mut s, n as u64);
        assert(s@ =~= digits_of(n as nat));
    }
    s
}

// ─────────────────────────────── the csv crate ───────────────────────────────

/// A CSV writer of the `csv` crate that writes into a byte vector. The
/// writer's type is bound by `std::io::Write`, so it is held in a private
/// field, and what it holds is known only through `csv_records` and
/// `csv_clean`.
#[verifier::external_body]
pub struct CsvSheet {
    writer: csv::Writer<Vec<u8>>,
}

/// The records a CSV writer has accepted so far, each a sequence of fields.
pub uninterp spec fn csv_records(w: CsvSheet) -> Seq<Seq<Seq<char>>>;

/// The writer holds nothing but the records it accepted: every record
/// written so far was accepted, so no refused record left part of itself in
/// the writer's buffer.
pub uninterp spec fn csv_clean(w: CsvSheet) -> bool;

/// The bytes that the `csv` crate, in its default configuration, writes for
/// the records.
pub uninterp spec fn csv_text(records: Seq<Seq<Seq<char>>>) -> Seq<u8>;

/// Calls `csv::Writer::from_writer` on an empty vector: a writer that has
/// accepted no record yet.
#[verifier::external_body]
fn csv_writer() -> (w: CsvSheet)
    ensures
        csv_records(w) == Seq::<Seq<Seq<char>>>::empty(),
        csv_clean(w),
{
    CsvSheet { writer: csv::Writer::from_writer(Vec::new()) }
}

/// Calls `csv::Writer::write_record` with the fields of one record. When the
/// crate accepts the record it is added after the earlier ones. In its
/// default configuration the crate refuses a record only when its number of
/// fields differs from the first record's, or when the underlying writer
/// fails, which a vector, growing as needed, does not; so a record of the
/// first record's length is accepted by a writer that has refused nothing.
/// A refused record stays in the writer's buffer and its field count is not
/// reset, so a writer that refused a record is never said to be clean
/// again; what it then writes is not stated.
#[verifier::external_body]
fn csv_write_record(w: &mut CsvSheet, record: &Vec<String>) -> (ok: bool)
    ensures
        ok ==> csv_records(*final(w)) == csv_records(*old(w)).push(record.deep_view()),
        csv_clean(*old(w)) && ok ==> csv_clean(*final(w)),
        csv_clean(*old(w)) && (csv_records(*old(w)).len() == 0 || record.deep_view().len()
            == csv_records(*old(w))[0].len()) ==> ok,
{
    w.writer.write_record(record.iter()).is_ok()
}

/// Calls `csv::Writer::into_inner`, which flushes the writer into the
/// vector and hands it back. Flushing fails only when the underlying writer
/// does, which a vector does not; the vector then holds the CSV text of the
/// records accepted. Of a writer that refused a record nothing is stated.
#[verifier::external_body]
fn csv_finish(w: CsvSheet) -> (r: Option<Vec<u8>>)
    ensures
        r is Some || !csv_clean(w),
        r matches Some(b) ==> csv_clean(w) ==> b@ == csv_text(csv_records(w)),
{
    w.writer.into_inner().ok()
}

// ───────────────────────────────── the tables ─────────────────────────────────

/// The UTF-8 byte order mark.
pub open spec fn bom() -> Seq<u8> {
    seq![0xEFu8, 0xBBu8, 0xBFu8]
}

/// An optional text as a field: empty when absent.
pub open spec fn field_of(o: Option<String>) -> Seq<char> {
    match o {
        Some(s) => s@,
        None => Seq::empty(),
    }
}

/// The header of the item table.
pub open spec fn items_header() -> Seq<Seq<char>> {
    seq!["ชื่อ"@, "หมวด"@, "ตำแหน่ง"@, "หน่วย"@, "คงเหลือ"@, "ขั้นต่ำ"@, "บาร์โค้ด"@, "วันหมดอายุ"@]
}

/// The record of an item: name, category, place, unit, quantity, minimum,
/// barcode and expiry date.
pub open spec fn item_record(it: Item, cats: Seq<Category>, locs: Seq<Location>) -> Seq<Seq<char>> {
    seq![
        it.name@,
        name_of(cats, it.category_id),
        name_of(locs, it.location_id),
        it.unit@,
        decimal(it.quantity as int),
        decimal(it.min_quantity as int),
        field_of(it.barcode),
        field_of(it.expiry_date),
    ]
}

/// The item table: the header, then one record per item in the given order.
pub open spec fn items_table(items: Seq<Item>, cats: Seq<Category>, locs: Seq<Location>) -> Seq<
    Seq<Seq<char>>,
> {
    seq![items_header()] + items.map_values(|it: Item| item_record(it, cats, locs))
}

/// The header of the history table.
pub open spec fn history_header() -> Seq<Seq<char>> {
    seq!["เวลา"@, "ของ"@, "ประเภท"@, "จำนวน"@, "ผู้ทำรายการ"@, "หมายเหตุ"@]
}

/// The record of a history row: time, item, direction, quantity, user and
/// note.
pub open spec fn history_record(t: Transaction) -> Seq<Seq<char>> {
    seq![
        t.timestamp@,
        t.item_name@,
        tx_label(t.tx_type),
        decimal(t.quantity as int),
        t.user_name@,
        t.note@,
    ]
}

/// The history table: the header, then one record per row in the given
/// order.
pub open spec fn history_table(txs: Seq<Transaction>) -> Seq<Seq<Seq<char>>> {
    seq![history_header()] + txs.map_values(|t: Transaction| history_record(t))
}

fn text_field(o: &Option<String>) -> (r: String)
    ensures
        r@ == field_of(*o),
{
    match o {
        Some(s) => s.clone(),
        None => String::new(),
    }
}

fn items_header_row() -> (r: Vec<String>)
    ensures
        r.deep_view() == items_header(),
{
    let r = vec![
        String::from_str("ชื่อ"),
        String::from_str("หมวด"),
        String::from_str("ตำแหน่ง"),
        String::from_str("หน่วย"),
        String::from_str("คงเหลือ"),
        String::from_str("ขั้นต่ำ"),
        String::from_str("บาร์โค้ด"),
        String::from_str("วันหมดอายุ"),
    ];
    assert(r.deep_view() =~= items_header());
    r
}

fn item_row(it: &Item, cats: &Vec<Category>, locs: &Vec<Location>) -> (r: Vec<String>)
    ensures
        r.deep_view() == item_record(*it, cats@, locs@),
{
    let r = vec![
        it.name.clone(),
        category_name(cats, it.category_id),
        location_name(locs, it.location_id),
        it.unit.clone(),
        decimal_string(it.quantity),
        decimal_string(it.min_quantity),
        text_field(&it.barcode),
        text_field(&it.expiry_date),
    ];
    assert(r.deep_view() =~= item_record(*it, cats@, locs@));
    r
}

fn history_header_row() -> (r: Vec<String>)
    ensures
        r.deep_view() == history_header(),
{
    let r = vec![
        String::from_str("เวลา"),
        String::from_str("ของ"),
        String::from_str("ประเภท"),
        String::from_str("จำนวน"),
        String::from_str("ผู้ทำรายการ"),
        String::from_str("หมายเหตุ"),
    ];
    assert(r.deep_view() =~= history_header());
    r
}

fn history_row(t: &Transaction) -> (r: Vec<String>)
    ensures
        r.deep_view() == history_record(*t),
{
    let r = vec![
        t.timestamp.clone(),
        t.item_name.clone(),
        String::from_str(t.tx_type.label_th()),
        decimal_string(t.quantity),
        t.user_name.clone(),
        t.note.clone(),
    ];
    assert(r.deep_view() =~= history_record(*t));
    r
}

/// The byte order mark followed by the bytes.
fn with_bom(body: Vec<u8>) -> (r: Vec<u8>)
    ensures
        r@ == bom() + body@,
{
    let mut out: Vec<u8> = Vec::new();
    out.push(0xEF);
    out.push(0xBB);
    out.push(0xBF);
    let mut i: usize = 0;
    while i < body.len()
        invariant
            i <= body@.len(),
            out@ == bom() + body@.take(i as int),
        decreases body@.len() - i,
    {
        out.push(body[i]);
        i = i + 1;
        assert(out@ =~= bom() + body@.take(i as int));
    }
    assert(body@.take(body@.len() as int) =~= body@);
    out
}

/// The item list as a CSV file: the byte order mark, then the CSV text of
/// the header and one record per item, in the given order. Every record
/// has the header's eight fields, so the `csv` crate always writes it.
pub fn items_csv(items: &Vec<Item>, cats: &Vec<Category>, locs: &Vec<Location>) -> (r: Option<
    Vec<u8>,
>)
    ensures
        r matches Some(b) && b@ == bom() + csv_text(items_table(items@, cats@, locs@)),
{
    let ghost rec = |it: Item| item_record(it, cats@, locs@);
    let mut w = csv_writer();
    let header = items_header_row();
    if !csv_write_record(&mut w, &header) {
        return None;
    }
    let mut i: usize = 0;
    while i < items.len()
        invariant
            rec == (|it: Item| item_record(it, cats@, locs@)),
            i <= items@.len(),
            csv_records(w) == seq![items_header()] + items@.take(i as int).map_values(rec),
            csv_clean(w),
        decreases items@.len() - i,
    {
        let row = item_row(&items[i], cats, locs);
        if !csv_write_record(&mut w, &row) {
            return None;
        }
        i = i + 1;
        assert(seq![items_header()] + items@.take(i as int).map_values(rec) =~= (seq![items_header()]
            + items@.take(i - 1).map_values(rec)).push(item_record(items@[i - 1], cats@, locs@)));
    }
    assert(items@.take(items@.len() as int) =~= items@);
    match csv_finish(w) {
        Some(body) => Some(with_bom(body)),
        None => None,
    }
}

/// The history as a CSV file: the byte order mark, then the CSV text of the
/// header and one record per row, in the given order. Every record has the
/// header's six fields, so the `csv` crate always writes it.
pub fn history_csv(txs: &Vec<Transaction>) -> (r: Option<Vec<u8>>)
    ensures
        r matches Some(b) && b@ == bom() + csv_text(history_table(txs@)),
{
    let ghost rec = |t: Transaction| history_record(t);
    let mut w = csv_writer();
    let header = history_header_row();
    if !csv_write_record(&mut w, &header) {
        return None;
    }
    let mut i: usize = 0;
    while i < txs.len()
        invariant
            rec == (|t: Transaction| history_record(t)),
            i <= txs@.len(),
            csv_records(w) == seq![history_header()] + txs@.take(i as int).map_values(rec),
            csv_clean(w),
        decreases txs@.len() - i,
    {
        let row = history_row(&txs[i]);
        if !csv_write_record(&mut w, &row) {
            return None;
        }
        i = i + 1;
        assert(seq![history_header()] + txs@.take(i as int).map_values(rec) =~= (seq![history_header()]
            + txs@.take(i - 1).map_values(rec)).push(history_record(txs@[i - 1])));
    }
    assert(txs@.take(txs@.len() as int) =~= txs@);
    match csv_finish(w) {
        Some(body) => Some(with_bom(body)),
        None => None,
    }
}

} // verus!
