use chrono::Datelike;
use eve_metrade::history::{recent_volume, volume_since, DayVolume, HistoryRow};

fn row(date: &str, volume: i64) -> HistoryRow {
    HistoryRow { date: date.to_string(), volume }
}

/// Day number (days from the common era) of 2024-03-31.
const MARCH_31_2024: i64 = 738976;

#[test]
fn counts_the_last_thirty_days() {
    let rows = vec![
        row("2024-03-31", 5),
        row("2024-03-01", 7),  // exactly thirty days before: counted
        row("2024-02-29", 11), // thirty-one days before: not counted
        row("not a date", 13),
        row("2024-03-15", 17),
    ];
    assert_eq!(recent_volume(&rows, MARCH_31_2024), 5 + 7 + 17);
    assert_eq!(recent_volume(&vec![], MARCH_31_2024), 0);
}

#[test]
fn the_day_number_matches_chrono() {
    let d = chrono::NaiveDate::from_ymd_opt(2024, 3, 31).unwrap();
    assert_eq!(d.num_days_from_ce() as i64, MARCH_31_2024);
}

#[test]
fn volume_since_a_day() {
    let days = vec![
        DayVolume { day: Some(100), volume: 1 },
        DayVolume { day: Some(69), volume: 2 },
        DayVolume { day: Some(70), volume: 4 },
        DayVolume { day: None, volume: 8 },
    ];
    assert_eq!(volume_since(&days, 100), 5);
    assert_eq!(volume_since(&days, 99), 1 + 2 + 4);
    assert_eq!(volume_since(&days, 131), 0);
}
