use catalog_mirror::brightcove::analytics::{check_status, STATUS_OK};
use catalog_mirror::error::SyncError;
use catalog_mirror::request::{accept_header, analytics_url, catalog_url, decimal};

#[test]
fn decimal_writes_numbers_without_padding() {
    assert_eq!(decimal(0), "0");
    assert_eq!(decimal(7), "7");
    assert_eq!(decimal(10), "10");
    assert_eq!(decimal(25), "25");
    assert_eq!(decimal(425), "425");
    assert_eq!(decimal(1_000_000), "1000000");
    assert_eq!(decimal(1_234_567_890), "1234567890");
    assert_eq!(decimal(u32::MAX), "4294967295");
}

#[test]
fn decimal_agrees_with_the_standard_rendering() {
    let mut number: u32 = 1;
    for _ in 0..40 {
        assert_eq!(decimal(number), number.to_string());
        number = number.wrapping_mul(31).wrapping_add(17);
    }
}

#[test]
fn catalog_url_names_account_page_size_and_offset() {
    assert_eq!(
        catalog_url("6057949416001", 1),
        Some(
            "https://edge.api.brightcove.com/playback/v1/accounts/6057949416001/videos?sort=-created_at&limit=25&offset=0"
                .to_string()
        )
    );
    assert_eq!(
        catalog_url("6057949416001", 3),
        Some(
            "https://edge.api.brightcove.com/playback/v1/accounts/6057949416001/videos?sort=-created_at&limit=25&offset=50"
                .to_string()
        )
    );
    assert_eq!(
        catalog_url("", 18),
        Some(
            "https://edge.api.brightcove.com/playback/v1/accounts//videos?sort=-created_at&limit=25&offset=425"
                .to_string()
        )
    );
}

#[test]
fn catalog_url_knows_no_page_zero() {
    assert_eq!(catalog_url("6057949416001", 0), None);
    assert_eq!(catalog_url("6057949416001", u32::MAX), None);
    assert!(catalog_url("6057949416001", 171_798_692).is_some());
    assert_eq!(catalog_url("6057949416001", 171_798_693), None);
}

#[test]
fn analytics_url_asks_for_all_videos() {
    assert_eq!(
        analytics_url("6057949416001"),
        "https://analytics.api.brightcove.com/v1/data?accounts=6057949416001&limit=all&dimensions=video&fields=video_view"
    );
}

#[test]
fn accept_header_carries_the_policy_key() {
    assert_eq!(accept_header("BCpkADawqM"), "application/json;pk=BCpkADawqM");
    assert_eq!(accept_header(""), "application/json;pk=");
}

#[test]
fn only_success_counts_as_an_answer() {
    assert_eq!(STATUS_OK, 200);
    assert_eq!(check_status(200), Ok(()));
    assert_eq!(check_status(201), Err(SyncError::Fetch));
    assert_eq!(check_status(401), Err(SyncError::Fetch));
    assert_eq!(check_status(404), Err(SyncError::Fetch));
    assert_eq!(check_status(500), Err(SyncError::Fetch));
    assert_eq!(check_status(0), Err(SyncError::Fetch));
}
