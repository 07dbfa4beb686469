use std::cmp::Ordering;
use stockdb::data::{exchange_comparison, exchange_rank};
use stockdb::models::StockExchange;

fn venue(code: &str) -> StockExchange {
    StockExchange {
        isin: "DE0001234567".to_string(),
        name: code.to_string(),
        code: code.to_string(),
        quality: None,
        onvista_record_id: 1,
        onvista_exchange_id: None,
    }
}

#[test]
fn listed_codes_rank_by_their_place() {
    assert_eq!(exchange_rank(&"GER".to_string()), 0);
    assert_eq!(exchange_rank(&"LUSG".to_string()), 3);
    assert_eq!(exchange_rank(&"DUS".to_string()), 9);
    assert_eq!(exchange_rank(&"XYZ".to_string()), 10);
}

#[test]
fn earlier_code_is_preferred() {
    assert_eq!(exchange_comparison(&venue("GER"), &venue("FRA")), Ordering::Less);
    assert_eq!(exchange_comparison(&venue("DUS"), &venue("STU")), Ordering::Greater);
    assert_eq!(exchange_comparison(&venue("MUN"), &venue("MUN")), Ordering::Equal);
}

#[test]
fn listed_code_beats_unlisted_code() {
    assert_eq!(exchange_comparison(&venue("DUS"), &venue("NYSE")), Ordering::Less);
    assert_eq!(exchange_comparison(&venue("NYSE"), &venue("DUS")), Ordering::Greater);
}

#[test]
fn unlisted_codes_are_equal() {
    assert_eq!(exchange_comparison(&venue("NYSE"), &venue("LSE")), Ordering::Equal);
}
