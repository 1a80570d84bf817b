//! The list filters of the opportunity, order and transaction views. Each
//! filter returns the positions of the rows it keeps, in order.

use vstd::prelude::*;
use crate::text::{
    chars_of, contains_chars, push_decimal, push_str, same_text, spec_contains, spec_decimal,
    spec_lowercase, spec_trim, string_from_chars, to_lowercase, trim_chars,
};

verus! {

/// Filters of the opportunity list.
#[derive(Debug)]
pub struct Filters {
    pub search: String,
    pub status: String,
    pub direction: String,
}

/// The text of an opportunity row that the filter reads.
#[derive(Debug)]
pub struct OpportunityText {
    pub status: String,
    pub direction: String,
    pub type_id: i64,
    pub item_name: String,
    pub notes: String,
    pub script_notes: String,
}

/// Filters of the account views.
#[derive(Debug)]
pub struct AccountFilters {
    pub search: String,
    pub character_id: Option<i64>,
    pub station: String,
    pub undercut_only: bool,
    pub unknown_cost_only: bool,
    pub side: String,
}

/// What the order filter reads of one of our orders.
#[derive(Debug)]
pub struct OrderText {
    pub character_id: i64,
    pub character_name: String,
    pub type_id: i64,
    pub item_name: String,
    pub station_name: String,
    pub is_undercut: bool,
    pub has_cost_basis: bool,
}

/// What the transaction filter reads of a wallet transaction.
#[derive(Debug)]
pub struct TransactionText {
    pub character_id: i64,
    pub type_id: i64,
    pub item_name: String,
    pub station_name: String,
    pub is_buy: bool,
}

/// The search term: trimmed, then lower-cased.
pub open spec fn spec_search_term(search: Seq<char>) -> Seq<char> {
    spec_lowercase(spec_trim(search))
}

/// An empty term matches everything; otherwise the lower-cased text must hold it.
pub open spec fn search_matches(term: Seq<char>, text: Seq<char>) -> bool {
    term.len() == 0 || spec_contains(spec_lowercase(text), term)
}

/// `"<type id> <item> <notes> <script notes>"`.
pub open spec fn opportunity_haystack(row: OpportunityText) -> Seq<char> {
    spec_decimal(row.type_id as int) + " "@ + row.item_name@ + " "@ + row.notes@ + " "@ + row.script_notes@
}

pub open spec fn keep_opportunity(row: OpportunityText, filters: Filters) -> bool {
    &&& (filters.status@ == "ALL"@ || row.status@ == filters.status@)
    &&& (filters.direction@ == "ALL"@ || row.direction@ == filters.direction@)
    &&& search_matches(spec_search_term(filters.search@), opportunity_haystack(row))
}

/// `"<type id> <item> <station> <character>"`.
pub open spec fn order_haystack(row: OrderText) -> Seq<char> {
    spec_decimal(row.type_id as int) + " "@ + row.item_name@ + " "@ + row.station_name@ + " "@
        + row.character_name@
}

pub open spec fn character_matches(filter: Option<i64>, id: i64) -> bool {
    match filter {
        Some(c) => c == id,
        None => true,
    }
}

pub open spec fn station_matches(filter: Seq<char>, station: Seq<char>) -> bool {
    spec_trim(filter).len() == 0 || station == filter
}

pub open spec fn keep_order(row: OrderText, filters: AccountFilters) -> bool {
    &&& character_matches(filters.character_id, row.character_id)
    &&& station_matches(filters.station@, row.station_name@)
    &&& (!filters.undercut_only || row.is_undercut)
    &&& (!filters.unknown_cost_only || !row.has_cost_basis)
    &&& search_matches(spec_search_term(filters.search@), order_haystack(row))
}

/// `"<type id> <item> <station>"`.
pub open spec fn transaction_haystack(row: TransactionText) -> Seq<char> {
    spec_decimal(row.type_id as int) + " "@ + row.item_name@ + " "@ + row.station_name@
}

pub open spec fn side_matches(side: Seq<char>, is_buy: bool) -> bool {
    if side == "BUY"@ {
        is_buy
    } else if side == "SELL"@ {
        !is_buy
    } else {
        true
    }
}

pub open spec fn keep_transaction(row: TransactionText, filters: AccountFilters) -> bool {
    &&& character_matches(filters.character_id, row.character_id)
    &&& station_matches(filters.station@, row.station_name@)
    &&& side_matches(filters.side@, row.is_buy)
    &&& search_matches(spec_search_term(filters.search@), transaction_haystack(row))
}

/// `kept` lists, in increasing order, exactly the positions below `n` where `keep` holds.
pub open spec fn lists_kept(kept: Seq<usize>, n: int, keep: spec_fn(int) -> bool) -> bool {
    &&& forall|j: int| 0 <= j < kept.len() ==> (#[trigger] kept[j]) < n && keep(kept[j] as int)
    &&& forall|j: int, k: int| 0 <= j < k < kept.len() ==> #[trigger] kept[j] < #[trigger] kept[k]
    &&& forall|i: int| 0 <= i < n && #[trigger] keep(i) ==> kept.contains(i as usize)
}

/// The search term of a filter, as characters.
fn search_term(search: &str) -> (t: Vec<char>)
    ensures
        t@ == spec_search_term(search@),
{
    let trimmed = trim_chars(search);
    let s = string_from_chars(trimmed.as_slice());
    let lower = to_lowercase(s.as_str());
    chars_of(lower.as_str())
}

/// Does the lower-cased `text` hold the term?
fn text_matches(term: &Vec<char>, text: &Vec<char>) -> (r: bool)
    ensures
        r == search_matches(term@, text@),
{
    if term.len() == 0 {
        return true;
    }
    let s = string_from_chars(text.as_slice());
    let lower = to_lowercase(s.as_str());
    let l = chars_of(lower.as_str());
    contains_chars(&l, term)
}

fn opportunity_text_matches(term: &Vec<char>, row: &OpportunityText) -> (r: bool)
    ensures
        r == search_matches(term@, opportunity_haystack(*row)),
{
    let mut v: Vec<char> = Vec::new();
    push_decimal(&mut v, row.type_id);
    push_str(&mut v, " ");
    push_str(&mut v, row.item_name.as_str());
    push_str(&mut v, " ");
    push_str(&mut v, row.notes.as_str());
    push_str(&mut v, " ");
    push_str(&mut v, row.script_notes.as_str());
    assert(v@ =~= opportunity_haystack(*row));
    text_matches(term, &v)
}

/// Keeps the opportunity rows of the chosen status and direction ("ALL"
/// for any) whose text holds the search term.
pub fn filter_opportunities(rows: &Vec<OpportunityText>, filters: &Filters) -> (kept: Vec<usize>)
    ensures
        lists_kept(kept@, rows.len() as int, |i: int| keep_opportunity(rows@[i], *filters)),
{
    let term = search_term(filters.search.as_str());
    let any_status = same_text(filters.status.as_str(), "ALL");
    let any_direction = same_text(filters.direction.as_str(), "ALL");
    let mut kept: Vec<usize> = Vec::new();
    let mut i: usize = 0;
    while i < rows.len()
        invariant
            i <= rows.len(),
            term@ == spec_search_term(filters.search@),
            any_status == (filters.status@ == "ALL"@),
            any_direction == (filters.direction@ == "ALL"@),
            forall|j: int| 0 <= j < kept.len() ==> (#[trigger] kept@[j]) < i && keep_opportunity(rows@[kept@[j] as int], *filters),
            forall|j: int, k: int| 0 <= j < k < kept.len() ==> #[trigger] kept@[j] < #[trigger] kept@[k],
            forall|x: int| 0 <= x < i && keep_opportunity(rows@[x], *filters) ==> kept@.contains(x as usize),
        decreases rows.len() - i,
    {
        let row = &rows[i];
        let keep = (any_status || same_text(row.status.as_str(), filters.status.as_str()))
            && (any_direction || same_text(row.direction.as_str(), filters.direction.as_str()))
            && opportunity_text_matches(&term, row);
        let ghost before = kept@;
        if keep {
            kept.push(i);
            assert(kept@.last() == i);
        }
        proof {
            assert forall|x: int| 0 <= x < i + 1 && keep_opportunity(rows@[x], *filters) implies kept@.contains(x as usize) by {
                if x < i {
                    assert(before.contains(x as usize));
                    let w = choose|w: int| 0 <= w < before.len() && before[w] == x as usize;
                    assert(kept@[w] == x as usize);
                } else {
                    assert(kept@[kept.len() - 1] == i);
                }
            }
        }
        i = i + 1;
    }
    kept
}

fn order_text_matches(term: &Vec<char>, row: &OrderText) -> (r: bool)
    ensures
        r == search_matches(term@, order_haystack(*row)),
{
    let mut v: Vec<char> = Vec::new();
    push_decimal(&mut v, row.type_id);
    push_str(&mut v, " ");
    push_str(&mut v, row.item_name.as_str());
    push_str(&mut v, " ");
    push_str(&mut v, row.station_name.as_str());
    push_str(&mut v, " ");
    push_str(&mut v, row.character_name.as_str());
    assert(v@ =~= order_haystack(*row));
    text_matches(term, &v)
}

fn transaction_text_matches(term: &Vec<char>, row: &TransactionText) -> (r: bool)
    ensures
        r == search_matches(term@, transaction_haystack(*row)),
{
    let mut v: Vec<char> = Vec::new();
    push_decimal(&mut v, row.type_id);
    push_str(&mut v, " ");
    push_str(&mut v, row.item_name.as_str());
    push_str(&mut v, " ");
    push_str(&mut v, row.station_name.as_str());
    assert(v@ =~= transaction_haystack(*row));
    text_matches(term, &v)
}

fn station_filter_matches(filter: &str, station: &str) -> (r: bool)
    ensures
        r == station_matches(filter@, station@),
{
    let t = trim_chars(filter);
    t.len() == 0 || same_text(station, filter)
}

/// Keeps our orders of the chosen character and station (blank for any),
/// only undercut ones or only ones of unknown cost when asked, whose text
/// holds the search term.
pub fn filter_our_orders(rows: &Vec<OrderText>, filters: &AccountFilters) -> (kept: Vec<usize>)
    ensures
        lists_kept(kept@, rows.len() as int, |i: int| keep_order(rows@[i], *filters)),
{
    let term = search_term(filters.search.as_str());
    let mut kept: Vec<usize> = Vec::new();
    let mut i: usize = 0;
    while i < rows.len()
        invariant
            i <= rows.len(),
            term@ == spec_search_term(filters.search@),
            forall|j: int| 0 <= j < kept.len() ==> (#[trigger] kept@[j]) < i && keep_order(rows@[kept@[j] as int], *filters),
            forall|j: int, k: int| 0 <= j < k < kept.len() ==> #[trigger] kept@[j] < #[trigger] kept@[k],
            forall|x: int| 0 <= x < i && keep_order(rows@[x], *filters) ==> kept@.contains(x as usize),
        decreases rows.len() - i,
    {
        let row = &rows[i];
        let character_ok = match filters.character_id {
            Some(c) => c == row.character_id,
            None => true,
        };
        let keep = character_ok && station_filter_matches(filters.station.as_str(), row.station_name.as_str())
            && (!filters.undercut_only || row.is_undercut) && (!filters.unknown_cost_only || !row.has_cost_basis)
            && order_text_matches(&term, row);
        let ghost before = kept@;
        if keep {
            kept.push(i);
        }
        proof {
            assert forall|x: int| 0 <= x < i + 1 && keep_order(rows@[x], *filters) implies kept@.contains(x as usize) by {
                if x < i {
                    let w = choose|w: int| 0 <= w < before.len() && before[w] == x as usize;
                    assert(kept@[w] == x as usize);
                } else {
                    assert(kept@[kept.len() - 1] == i);
                }
            }
        }
        i = i + 1;
    }
    kept
}

/// Keeps the transactions of the chosen character, station (blank for any)
/// and side ("BUY", "SELL", anything else for both) whose text holds the
/// search term.
pub fn filter_transactions(rows: &Vec<TransactionText>, filters: &AccountFilters) -> (kept: Vec<usize>)
    ensures
        lists_kept(kept@, rows.len() as int, |i: int| keep_transaction(rows@[i], *filters)),
{
    let term = search_term(filters.search.as_str());
    let buy_only = same_text(filters.side.as_str(), "BUY");
    let sell_only = same_text(filters.side.as_str(), "SELL");
    let mut kept: Vec<usize> = Vec::new();
    let mut i: usize = 0;
    while i < rows.len()
        invariant
            i <= rows.len(),
            term@ == spec_search_term(filters.search@),
            buy_only == (filters.side@ == "BUY"@),
            sell_only == (filters.side@ == "SELL"@),
            forall|j: int| 0 <= j < kept.len() ==> (#[trigger] kept@[j]) < i && keep_transaction(rows@[kept@[j] as int], *filters),
            forall|j: int, k: int| 0 <= j < k < kept.len() ==> #[trigger] kept@[j] < #[trigger] kept@[k],
            forall|x: int| 0 <= x < i && keep_transaction(rows@[x], *filters) ==> kept@.contains(x as usize),
        decreases rows.len() - i,
    {
        let row = &rows[i];
        let character_ok = match filters.character_id {
            Some(c) => c == row.character_id,
            None => true,
        };
        let side_ok = if buy_only {
            row.is_buy
        } else if sell_only {
            !row.is_buy
        } else {
            true
        };
        let keep = character_ok && station_filter_matches(filters.station.as_str(), row.station_name.as_str())
            && side_ok && transaction_text_matches(&term, row);
        let ghost before = kept@;
        if keep {
            kept.push(i);
        }
        proof {
            assert forall|x: int| 0 <= x < i + 1 && keep_transaction(rows@[x], *filters) implies kept@.contains(x as usize) by {
                if x < i {
                    let w = choose|w: int| 0 <= w < before.len() && before[w] == x as usize;
                    assert(kept@[w] == x as usize);
                } else {
                    assert(kept@[kept.len() - 1] == i);
                }
            }
        }
        i = i + 1;
    }
    kept
}

/// `part` stands somewhere in `hay` as a contiguous run.
pub open spec fn occurs_in(part: Seq<char>, hay: Seq<char>) -> bool {
    exists|i: int| 0 <= i && i + part.len() <= hay.len() && #[trigger] hay.subrange(i, i + part.len()) == part
}

proof fn lemma_occurs_at(part: Seq<char>, hay: Seq<char>, i: int)
    requires
        0 <= i,
        i + part.len() <= hay.len(),
        hay.subrange(i, i + part.len()) =~= part,
    ensures
        occurs_in(part, hay),
{
}

/// The text an opportunity is searched in holds its type ID, item name,
/// notes and script notes.
pub proof fn law_opportunity_search_covers_its_fields(row: OpportunityText)
    ensures
        occurs_in(spec_decimal(row.type_id as int), opportunity_haystack(row)),
        occurs_in(row.item_name@, opportunity_haystack(row)),
        occurs_in(row.notes@, opportunity_haystack(row)),
        occurs_in(row.script_notes@, opportunity_haystack(row)),
{
    reveal_strlit(" ");
    let h = opportunity_haystack(row);
    let a = spec_decimal(row.type_id as int);
    let b = row.item_name@;
    let c = row.notes@;
    let d = row.script_notes@;
    lemma_occurs_at(a, h, 0);
    lemma_occurs_at(b, h, (a.len() + 1) as int);
    lemma_occurs_at(c, h, (a.len() + 1 + b.len() + 1) as int);
    lemma_occurs_at(d, h, (a.len() + 1 + b.len() + 1 + c.len() + 1) as int);
}

/// The text one of our orders is searched in holds its type ID, item name,
/// station name and character name.
pub proof fn law_order_search_covers_its_fields(row: OrderText)
    ensures
        occurs_in(spec_decimal(row.type_id as int), order_haystack(row)),
        occurs_in(row.item_name@, order_haystack(row)),
        occurs_in(row.station_name@, order_haystack(row)),
        occurs_in(row.character_name@, order_haystack(row)),
{
    reveal_strlit(" ");
    let h = order_haystack(row);
    let a = spec_decimal(row.type_id as int);
    let b = row.item_name@;
    let c = row.station_name@;
    let d = row.character_name@;
    lemma_occurs_at(a, h, 0);
    lemma_occurs_at(b, h, (a.len() + 1) as int);
    lemma_occurs_at(c, h, (a.len() + 1 + b.len() + 1) as int);
    lemma_occurs_at(d, h, (a.len() + 1 + b.len() + 1 + c.len() + 1) as int);
}

/// The text a transaction is searched in holds its type ID, item name and station name.
pub proof fn law_transaction_search_covers_its_fields(row: TransactionText)
    ensures
        occurs_in(spec_decimal(row.type_id as int), transaction_haystack(row)),
        occurs_in(row.item_name@, transaction_haystack(row)),
        occurs_in(row.station_name@, transaction_haystack(row)),
{
    reveal_strlit(" ");
    let h = transaction_haystack(row);
    let a = spec_decimal(row.type_id as int);
    let b = row.item_name@;
    let c = row.station_name@;
    lemma_occurs_at(a, h, 0);
    lemma_occurs_at(b, h, (a.len() + 1) as int);
    lemma_occurs_at(c, h, (a.len() + 1 + b.len() + 1) as int);
}

/// The searched text is made of the fields and the single spaces between
/// them, and nothing else: its length is theirs plus the separators.
pub proof fn law_order_search_text_length(row: OrderText)
    ensures
        order_haystack(row).len() == spec_decimal(row.type_id as int).len() + row.item_name@.len()
            + row.station_name@.len() + row.character_name@.len() + 3,
{
    reveal_strlit(" ");
}

} // verus!
