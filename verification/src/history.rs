//! Recent traded volume from a region's daily market history.

use vstd::prelude::*;
use chrono::Datelike;

verus! {

/// One day of market history: its date (`YYYY-MM-DD`) and units traded.
#[derive(Debug)]
pub struct HistoryRow {
    pub date: String,
    pub volume: i64,
}

/// A day, as a day number when its date could be read, and its volume.
#[derive(Clone, Copy, Debug, PartialEq, Eq)]
pub struct DayVolume {
    pub day: Option<i64>,
    pub volume: i64,
}

/// Days counted back from today that still count as recent.
pub const RECENT_DAYS: i64 = 30;

/// The day number (`Datelike::num_days_from_ce`) of the date that
/// `chrono::NaiveDate::parse_from_str` reads from the text with the format
/// `"%Y-%m-%d"`, or `None` when it reads none.
pub uninterp spec fn spec_ymd_day(date: Seq<char>) -> Option<i64>;

/// `NaiveDate::parse_from_str(date, "%Y-%m-%d")`, then `num_days_from_ce`.
/// Claimed: the result is the named day number of the text, and a day
/// number fits an `i32` (its type in chrono).
#[verifier::external_body]
fn parse_ymd_day(date: &str) -> (r: Option<i64>)
    ensures
        r == spec_ymd_day(date@),
        r matches Some(d) ==> i32::MIN <= d <= i32::MAX,
{
    match chrono::NaiveDate::parse_from_str(date, "%Y-%m-%d") {
        Ok(d) => Some(d.num_days_from_ce() as i64),
        Err(_) => None,
    }
}

/// Units traded on the days dated on or after `cutoff`; undated days count for nothing.
pub open spec fn spec_volume_since(rows: Seq<DayVolume>, cutoff: int) -> int
    decreases rows.len(),
{
    if rows.len() == 0 {
        0
    } else {
        spec_volume_since(rows.drop_last(), cutoff) + match rows.last().day {
            Some(d) => if d >= cutoff {
                rows.last().volume as int
            } else {
                0
            },
            None => 0,
        }
    }
}

/// The history rows with their dates read as day numbers.
pub open spec fn spec_day_volumes(rows: Seq<HistoryRow>) -> Seq<DayVolume> {
    rows.map_values(|r: HistoryRow| DayVolume { day: spec_ymd_day(r.date@), volume: r.volume })
}

proof fn lemma_volume_since_bounds(rows: Seq<DayVolume>, cutoff: int)
    ensures
        -0x8000_0000_0000_0000 * rows.len() <= spec_volume_since(rows, cutoff)
            <= 0x8000_0000_0000_0000 * rows.len(),
    decreases rows.len(),
{
    if rows.len() > 0 {
        lemma_volume_since_bounds(rows.drop_last(), cutoff);
    }
}

/// Units traded in the last thirty days, counting from the day number `today`.
pub fn volume_since(rows: &Vec<DayVolume>, today: i64) -> (r: i128)
    ensures
        r == spec_volume_since(rows@, today - RECENT_DAYS),
{
    let cutoff: i128 = today as i128 - 30;
    let mut total: i128 = 0;
    let mut i: usize = 0;
    while i < rows.len()
        invariant
            i <= rows.len(),
            cutoff == today - RECENT_DAYS,
            total == spec_volume_since(rows@.take(i as int), cutoff as int),
        decreases rows.len() - i,
    {
        let row = rows[i];
        assert(rows@.take(i + 1).drop_last() =~= rows@.take(i as int));
        assert(rows@.take(i + 1).last() == row);
        proof {
            lemma_volume_since_bounds(rows@.take(i as int), cutoff as int);
            assert(i < 0x1_0000_0000_0000_0000);
        }
        match row.day {
            Some(d) => {
                if d as i128 >= cutoff {
                    total = total + row.volume as i128;
                }
            },
            None => {},
        }
        i = i + 1;
    }
    assert(rows@.take(rows.len() as int) =~= rows@);
    total
}

/// Units traded in the last thirty days of a history, counting from the day
/// number `today`; rows whose date cannot be read count for nothing.
pub fn recent_volume(rows: &Vec<HistoryRow>, today: i64) -> (r: i128)
    ensures
        r == spec_volume_since(spec_day_volumes(rows@), today - RECENT_DAYS),
{
    let mut days: Vec<DayVolume> = Vec::new();
    let mut i: usize = 0;
    while i < rows.len()
        invariant
            i <= rows.len(),
            days@ == spec_day_volumes(rows@.take(i as int)),
        decreases rows.len() - i,
    {
        let day = parse_ymd_day(rows[i].date.as_str());
        days.push(DayVolume { day, volume: rows[i].volume });
        assert(spec_day_volumes(rows@.take(i + 1)) =~= spec_day_volumes(rows@.take(i as int)).push(
            DayVolume { day, volume: rows[i as int].volume },
        ));
        i = i + 1;
    }
    assert(rows@.take(rows.len() as int) =~= rows@);
    volume_since(&days, today)
}

} // verus!
