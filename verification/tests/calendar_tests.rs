use ytdlp_core::calendar::{civil_from_days, datetime_string, ymd_compact, ymd_dashed};

#[test]
fn civil_dates_of_known_days() {
    assert_eq!(civil_from_days(0), (1970, 1, 1));
    assert_eq!(civil_from_days(59), (1970, 3, 1));
    assert_eq!(civil_from_days(11016), (2000, 2, 29));
    assert_eq!(civil_from_days(19723), (2024, 1, 1));
    assert_eq!(civil_from_days(20088), (2024, 12, 31));
}

#[test]
fn date_texts() {
    let secs = 1_700_000_000u64; // 2023-11-14 22:13:20 UTC
    assert_eq!(ymd_dashed(secs), "2023-11-14");
    assert_eq!(ymd_compact(secs), "20231114");
    assert_eq!(datetime_string(secs), "2023-11-14 22:13:20");
    assert_eq!(datetime_string(0), "1970-01-01 00:00:00");
}
