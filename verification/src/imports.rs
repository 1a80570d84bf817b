//! Reading the public data dumps that discovery imports: the item type list
//! (a headerless CSV of type ID and name) and the gzipped market aggregate
//! CSV, whose first field is `region|type|is_buy`.

use vstd::prelude::*;
use std::io::Read;
use crate::text::{
    chars_of, join, owned, parse_i64_or, push_str, same_text, spec_i64_or, spec_join, spec_split,
    spec_trim, split_chars, string_from_chars, string_views, trim_chars,
};

verus! {

/// What the `csv` crate reads from some bytes: the records, each a list of
/// fields, or the message of the first error.
pub uninterp spec fn spec_csv_read(bytes: Seq<u8>, has_headers: bool) -> Result<Seq<Seq<Seq<char>>>, Seq<char>>;

pub open spec fn fields_view(record: Seq<String>) -> Seq<Seq<char>> {
    record.map_values(|f: String| f@)
}

pub open spec fn records_view(records: Seq<Vec<String>>) -> Seq<Seq<Seq<char>>> {
    records.map_values(|r: Vec<String>| fields_view(r@))
}

/// `csv::ReaderBuilder::new().has_headers(..).from_reader(bytes).records()`,
/// collected. Claimed: the records, or the error's message, are the named
/// reading of the bytes and the header flag.
#[verifier::external_body]
fn csv_records(bytes: &[u8], has_headers: bool) -> (r: Result<Vec<Vec<String>>, String>)
    ensures
        match spec_csv_read(bytes@, has_headers) {
            Ok(recs) => r matches Ok(v) && records_view(v@) == recs,
            Err(msg) => r matches Err(e) && e@ == msg,
        },
{
    let mut reader = csv::ReaderBuilder::new().has_headers(has_headers).from_reader(bytes);
    let read: Result<Vec<csv::StringRecord>, csv::Error> = reader.records().collect();
    match read {
        Ok(records) => Ok(records.iter().map(|r| r.iter().map(|f| f.to_string()).collect()).collect()),
        Err(e) => Err(e.to_string()),
    }
}

/// What `flate2::read::GzDecoder` decompresses some bytes to, read as
/// UTF-8 text, or the message of the I/O error that reading gives.
pub uninterp spec fn spec_gunzip_text(bytes: Seq<u8>) -> Result<Seq<char>, Seq<char>>;

/// `GzDecoder::new(bytes).read_to_string(..)`. Claimed: the text, or the
/// error's message, is the named decompression of the bytes.
#[verifier::external_body]
fn gunzip_text(bytes: &[u8]) -> (r: Result<String, String>)
    ensures
        match spec_gunzip_text(bytes@) {
            Ok(text) => r matches Ok(s) && s@ == text,
            Err(msg) => r matches Err(e) && e@ == msg,
        },
{
    let mut decoded = String::new();
    match flate2::read::GzDecoder::new(bytes).read_to_string(&mut decoded) {
        Ok(_) => Ok(decoded),
        Err(e) => Err(e.to_string()),
    }
}

/// The `i`-th field of a record, if it has one.
pub open spec fn field(record: Seq<Seq<char>>, i: int) -> Option<Seq<char>> {
    if 0 <= i < record.len() {
        Some(record[i])
    } else {
        None
    }
}

/// A field read as an `i64`, zero when missing or not a number.
pub open spec fn field_i64(record: Seq<Seq<char>>, i: int) -> i64 {
    match field(record, i) {
        Some(t) => spec_i64_or(t, 0),
        None => 0,
    }
}

/// An item type of the type list.
#[derive(Debug, PartialEq, Eq)]
pub struct ItemType {
    pub type_id: i64,
    pub name: String,
}

pub open spec fn item_type_view(t: ItemType) -> (i64, Seq<char>) {
    (t.type_id, t.name@)
}

/// A type-list record: its type ID and trimmed name, unless the ID is not
/// positive, the name is empty or the name starts with `#`.
pub open spec fn spec_item_type(record: Seq<Seq<char>>) -> Option<(i64, Seq<char>)> {
    let type_id = field_i64(record, 0);
    let name = match field(record, 1) {
        Some(t) => spec_trim(t),
        None => Seq::empty(),
    };
    if type_id <= 0 || name.len() == 0 || name[0] == '#' {
        None
    } else {
        Some((type_id, name))
    }
}

/// The item types of the records, in order.
pub open spec fn spec_item_types(records: Seq<Seq<Seq<char>>>) -> Seq<(i64, Seq<char>)>
    decreases records.len(),
{
    if records.len() == 0 {
        Seq::empty()
    } else {
        let rest = spec_item_types(records.drop_last());
        match spec_item_type(records.last()) {
            Some(t) => rest.push(t),
            None => rest,
        }
    }
}

fn field_text(record: &Vec<String>, i: usize) -> (r: &str)
    ensures
        match field(fields_view(record@), i as int) {
            Some(t) => r@ == t,
            None => r@ == Seq::<char>::empty(),
        },
{
    if i < record.len() {
        record[i].as_str()
    } else {
        proof {
            reveal_strlit("");
        }
        ""
    }
}

/// Reads one record of the type list.
pub fn item_type(record: &Vec<String>) -> (r: Option<ItemType>)
    ensures
        match spec_item_type(fields_view(record@)) {
            Some(t) => r matches Some(x) && item_type_view(x) == t,
            None => r is None,
        },
{
    let ghost fv = fields_view(record@);
    let type_id = if 0 < record.len() {
        parse_i64_or(record[0].as_str(), 0)
    } else {
        0
    };
    assert(type_id == field_i64(fv, 0));
    let name = trim_chars(field_text(record, 1));
    if type_id <= 0 || name.len() == 0 || name[0] == '#' {
        None
    } else {
        Some(ItemType { type_id, name: string_from_chars(name.as_slice()) })
    }
}

/// The item types of a type list's records, in order, leaving out the records that hold none.
pub fn item_types_from_records(records: &Vec<Vec<String>>) -> (r: Vec<ItemType>)
    ensures
        r@.map_values(|t: ItemType| item_type_view(t)) == spec_item_types(records_view(records@)),
{
    let ghost rv = records_view(records@);
    let mut out: Vec<ItemType> = Vec::new();
    let mut i: usize = 0;
    while i < records.len()
        invariant
            i <= records.len(),
            rv == records_view(records@),
            out@.map_values(|t: ItemType| item_type_view(t)) == spec_item_types(rv.take(i as int)),
        decreases records.len() - i,
    {
        assert(rv.take(i + 1).drop_last() =~= rv.take(i as int));
        assert(rv.take(i + 1).last() == fields_view(records@[i as int]@));
        let ghost before = out@;
        match item_type(&records[i]) {
            Some(t) => {
                out.push(t);
                assert(out@.map_values(|t: ItemType| item_type_view(t)) =~= before.map_values(
                    |t: ItemType| item_type_view(t),
                ).push(item_type_view(out@.last())));
            },
            None => {},
        }
        i = i + 1;
    }
    assert(rv.take(records.len() as int) =~= rv);
    out
}

/// Reads the item types of a type-list download.
pub fn item_types_from_csv(body: &[u8]) -> (r: Result<Vec<ItemType>, String>)
    ensures
        match spec_csv_read(body@, false) {
            Ok(recs) => r matches Ok(v) && v@.map_values(|t: ItemType| item_type_view(t)) == spec_item_types(recs),
            Err(msg) => r matches Err(e) && e@ == msg,
        },
{
    match csv_records(body, false) {
        Ok(records) => Ok(item_types_from_records(&records)),
        Err(e) => Err(e),
    }
}

/// A sell-side aggregate of a region and type that the market snapshot keeps.
#[derive(Debug)]
pub struct AggregateRow {
    pub region_id: i64,
    pub type_id: i64,
    /// Field 7, the number of orders, as an integer (zero when it is not one).
    pub num_orders: i64,
    /// Field 9, the order set, as an integer (zero when it is not one).
    pub order_set: i64,
    /// All fields of the record, for the prices that are read as decimals.
    pub fields: Vec<String>,
}

/// The region and type of an aggregate key `region|type|is_buy`, when the
/// region is one of the two hubs' regions, the side is not buy and the type
/// is positive. Missing or malformed numbers read as zero; the side is buy
/// only when it reads exactly `true`.
pub open spec fn spec_aggregate_key(what: Seq<char>, forge: i64, domain: i64) -> Option<(i64, i64)> {
    let parts = spec_split(what, '|');
    let region = field_i64(parts, 0);
    let type_id = field_i64(parts, 1);
    let is_buy = field(parts, 2) == Some("true"@);
    if (region != forge && region != domain) || is_buy || type_id <= 0 {
        None
    } else {
        Some((region, type_id))
    }
}

/// The kept aggregate of one record: region, type, order count, order set
/// and all of its fields.
pub open spec fn spec_aggregate(record: Seq<Seq<char>>, forge: i64, domain: i64) -> Option<(i64, i64, i64, i64, Seq<Seq<char>>)> {
    let what = match field(record, 0) {
        Some(t) => t,
        None => Seq::empty(),
    };
    match spec_aggregate_key(what, forge, domain) {
        Some((region, type_id)) => Some((region, type_id, field_i64(record, 7), field_i64(record, 9), record)),
        None => None,
    }
}

pub open spec fn aggregate_view(a: AggregateRow) -> (i64, i64, i64, i64, Seq<Seq<char>>) {
    (a.region_id, a.type_id, a.num_orders, a.order_set, fields_view(a.fields@))
}

/// The kept aggregates of the records, in order.
pub open spec fn spec_aggregates(records: Seq<Seq<Seq<char>>>, forge: i64, domain: i64) -> Seq<(i64, i64, i64, i64, Seq<Seq<char>>)>
    decreases records.len(),
{
    if records.len() == 0 {
        Seq::empty()
    } else {
        let rest = spec_aggregates(records.drop_last(), forge, domain);
        match spec_aggregate(records.last(), forge, domain) {
            Some(a) => rest.push(a),
            None => rest,
        }
    }
}

/// Reads an aggregate key; see `spec_aggregate_key`.
pub fn aggregate_key(what: &str, forge: i64, domain: i64) -> (r: Option<(i64, i64)>)
    ensures
        r == spec_aggregate_key(what@, forge, domain),
{
    let w = chars_of(what);
    let parts = split_chars(&w, '|');
    let ghost pv = spec_split(what@, '|');
    let region = if 0 < parts.len() {
        let s = string_from_chars(parts[0].as_slice());
        parse_i64_or(s.as_str(), 0)
    } else {
        0
    };
    let type_id = if 1 < parts.len() {
        let s = string_from_chars(parts[1].as_slice());
        parse_i64_or(s.as_str(), 0)
    } else {
        0
    };
    let is_buy = if 2 < parts.len() {
        let s = string_from_chars(parts[2].as_slice());
        let b = same_text(s.as_str(), "true");
        assert(b == (field(pv, 2) == Some("true"@)));
        b
    } else {
        false
    };
    assert(region == field_i64(pv, 0));
    assert(type_id == field_i64(pv, 1));
    if (region != forge && region != domain) || is_buy || type_id <= 0 {
        None
    } else {
        Some((region, type_id))
    }
}

fn field_i64_of(record: &Vec<String>, i: usize) -> (r: i64)
    ensures
        r == field_i64(fields_view(record@), i as int),
{
    if i < record.len() {
        parse_i64_or(record[i].as_str(), 0)
    } else {
        0
    }
}

/// A copy of a record's fields.
fn copy_fields(record: &Vec<String>) -> (r: Vec<String>)
    ensures
        fields_view(r@) == fields_view(record@),
{
    let mut out: Vec<String> = Vec::new();
    let mut i: usize = 0;
    while i < record.len()
        invariant
            i <= record.len(),
            fields_view(out@) == fields_view(record@.take(i as int)),
        decreases record.len() - i,
    {
        let ghost before = out@;
        out.push(owned(record[i].as_str()));
        assert(record@.take(i + 1) =~= record@.take(i as int).push(record@[i as int]));
        assert(out@ =~= before.push(out@.last()));
        assert(fields_view(out@) =~= fields_view(before).push(record@[i as int]@));
        assert(fields_view(record@.take(i + 1)) =~= fields_view(record@.take(i as int)).push(record@[i as int]@));
        i = i + 1;
    }
    assert(record@.take(record.len() as int) =~= record@);
    out
}

/// The sell-side aggregates of the two hub regions among the records, in order.
pub fn aggregates_from_records(records: &Vec<Vec<String>>, forge: i64, domain: i64) -> (r: Vec<AggregateRow>)
    ensures
        r@.map_values(|a: AggregateRow| aggregate_view(a)) == spec_aggregates(records_view(records@), forge, domain),
{
    let ghost rv = records_view(records@);
    let mut out: Vec<AggregateRow> = Vec::new();
    let mut i: usize = 0;
    while i < records.len()
        invariant
            i <= records.len(),
            rv == records_view(records@),
            out@.map_values(|a: AggregateRow| aggregate_view(a)) == spec_aggregates(rv.take(i as int), forge, domain),
        decreases records.len() - i,
    {
        assert(rv.take(i + 1).drop_last() =~= rv.take(i as int));
        assert(rv.take(i + 1).last() == fields_view(records@[i as int]@));
        let record = &records[i];
        let key = aggregate_key(field_text(record, 0), forge, domain);
        let ghost before = out@;
        match key {
            Some((region_id, type_id)) => {
                let row = AggregateRow {
                    region_id,
                    type_id,
                    num_orders: field_i64_of(record, 7),
                    order_set: field_i64_of(record, 9),
                    fields: copy_fields(record),
                };
                out.push(row);
                assert(out@.map_values(|a: AggregateRow| aggregate_view(a)) =~= before.map_values(
                    |a: AggregateRow| aggregate_view(a),
                ).push(aggregate_view(out@.last())));
            },
            None => {},
        }
        i = i + 1;
    }
    assert(rv.take(records.len() as int) =~= rv);
    out
}

/// Reads the kept aggregates of a gzipped aggregate download.
pub fn aggregates_from_gzip_csv(bytes: &[u8], forge: i64, domain: i64) -> (r: Result<Vec<AggregateRow>, String>)
    ensures
        match spec_gunzip_text(bytes@) {
            Err(msg) => r matches Err(e) && e@ == msg,
            Ok(text) => match spec_csv_read(vstd::utf8::encode_utf8(text), true) {
                Ok(recs) => r matches Ok(v) && v@.map_values(|a: AggregateRow| aggregate_view(a))
                    == spec_aggregates(recs, forge, domain),
                Err(msg) => r matches Err(e) && e@ == msg,
            },
        },
{
    let text = match gunzip_text(bytes) {
        Ok(t) => t,
        Err(e) => return Err(e),
    };
    match csv_records(text.as_str().as_bytes(), true) {
        Ok(records) => Ok(aggregates_from_records(&records, forge, domain)),
        Err(e) => Err(e),
    }
}

/// The errors of a discovery run, one line per failed step, each tagged
/// with its step.
pub open spec fn spec_discovery_errors(
    item_types: Option<Seq<char>>,
    market: Option<Seq<char>>,
    candidates: Option<Seq<char>>,
) -> Seq<char> {
    let a: Seq<Seq<char>> = match item_types {
        Some(e) => seq!["item types: "@ + e],
        None => Seq::empty(),
    };
    let b: Seq<Seq<char>> = match market {
        Some(e) => seq!["market snapshot: "@ + e],
        None => Seq::empty(),
    };
    let c: Seq<Seq<char>> = match candidates {
        Some(e) => seq!["candidates: "@ + e],
        None => Seq::empty(),
    };
    spec_join(a + b + c, "\n"@)
}

fn tagged(tag: &str, error: &str) -> (r: String)
    ensures
        r@ == tag@ + error@,
{
    let mut v: Vec<char> = Vec::new();
    push_str(&mut v, tag);
    push_str(&mut v, error);
    string_from_chars(v.as_slice())
}

/// Reports the failed steps of a discovery run.
pub fn discovery_errors(item_types: Option<&str>, market: Option<&str>, candidates: Option<&str>) -> (r: String)
    ensures
        r@ == spec_discovery_errors(
            match item_types {
                Some(e) => Some(e@),
                None => None,
            },
            match market {
                Some(e) => Some(e@),
                None => None,
            },
            match candidates {
                Some(e) => Some(e@),
                None => None,
            },
        ),
{
    let mut lines: Vec<String> = Vec::new();
    match item_types {
        Some(e) => lines.push(tagged("item types: ", e)),
        None => {},
    }
    match market {
        Some(e) => lines.push(tagged("market snapshot: ", e)),
        None => {},
    }
    match candidates {
        Some(e) => lines.push(tagged("candidates: ", e)),
        None => {},
    }
    let ghost want: Seq<Seq<char>> = (match item_types {
        Some(e) => seq!["item types: "@ + e@],
        None => Seq::<Seq<char>>::empty(),
    }) + (match market {
        Some(e) => seq!["market snapshot: "@ + e@],
        None => Seq::<Seq<char>>::empty(),
    }) + (match candidates {
        Some(e) => seq!["candidates: "@ + e@],
        None => Seq::<Seq<char>>::empty(),
    });
    assert(string_views(lines@) =~= want);
    join(&lines, "\n")
}

} // verus!
