use catalog_mirror::brightcove::{
    page_offset, total_pages, PlayerResponse, Video, VideoCustomFields, VIDEOS_PER_PAGE,
};
use catalog_mirror::db::{get_latest_bc_video_id, save_videos, VideoRow, VideoTable};
use catalog_mirror::error::SyncError;
use catalog_mirror::mirror::sync_once;
use catalog_mirror::sync::{collect_new_videos, get_new_videos, CatalogSync, SyncEvent, SyncStep};

fn video(id: &str) -> Video {
    Video {
        id: id.to_string(),
        name: format!("race {}", id),
        thumbnail: format!("https://img/{}.jpg", id),
        custom_fields: VideoCustomFields {
            numero_corsa: "02".to_string(),
            data: "2022/03/20".to_string(),
            tipologia: Some("TROTTO".to_string()),
            cavalli: None,
            fantini: None,
            primo: Some("CASPIAN PLAY FONT".to_string()),
            secondo: None,
            terzo: None,
            ippodromo: "FIRENZE".to_string(),
        },
        video_views: Some(7),
    }
}

fn page(count: u32, ids: &[&str]) -> PlayerResponse {
    PlayerResponse { count, videos: ids.iter().map(|id| video(id)).collect() }
}

fn ids_of(rows: &Vec<VideoRow>) -> Vec<String> {
    rows.iter().map(|row| row.bc_video_id.clone()).collect()
}

fn table_with(ids: &[&str]) -> VideoTable {
    let mut table = VideoTable::new();
    let rows: Vec<VideoRow> = ids.iter().map(|id| VideoRow::from(&video(id))).collect();
    save_videos(&mut table, &rows);
    table
}

/// Five pages of two videos each, newest first; the catalog declares 125
/// videos, so that it spans five pages.
fn five_pages() -> Vec<PlayerResponse> {
    vec![
        page(125, &["910", "909"]),
        page(125, &["908", "907"]),
        page(125, &["906", "905"]),
        page(125, &["904", "903"]),
        page(125, &["902", "901"]),
    ]
}

#[test]
fn total_pages_rounds_up() {
    assert_eq!(VIDEOS_PER_PAGE, 25);
    assert_eq!(total_pages(0), 0);
    assert_eq!(total_pages(1), 1);
    assert_eq!(total_pages(25), 1);
    assert_eq!(total_pages(26), 2);
    assert_eq!(total_pages(444), 18);
    assert_eq!(total_pages(u32::MAX), 171_798_692);
}

#[test]
fn page_offset_counts_from_page_one() {
    assert_eq!(page_offset(0), None);
    assert_eq!(page_offset(1), Some(0));
    assert_eq!(page_offset(2), Some(25));
    assert_eq!(page_offset(18), Some(425));
    assert_eq!(page_offset(171_798_692), Some(4_294_967_275));
    assert_eq!(page_offset(171_798_693), None);
    assert_eq!(page_offset(u32::MAX), None);
}

#[test]
fn pass_starts_at_the_first_page() {
    let sync = CatalogSync::start(None);
    assert_eq!(sync.page(), 1);
    assert_eq!(sync.offset(), 0);
}

#[test]
fn pass_asks_for_the_next_page_at_its_offset() {
    let feed = five_pages();
    let sync = CatalogSync::start(None);
    let sync = match sync.step(SyncEvent::Page(&feed[0])) {
        SyncStep::Fetch(next) => next,
        _ => panic!("the pass ended on the first of five pages"),
    };
    assert_eq!(sync.page(), 2);
    assert_eq!(sync.offset(), 25);
    let sync = match sync.step(SyncEvent::Page(&feed[1])) {
        SyncStep::Fetch(next) => next,
        _ => panic!("the pass ended on the second of five pages"),
    };
    assert_eq!(sync.page(), 3);
    assert_eq!(sync.offset(), 50);
}

#[test]
fn cursor_on_page_three_of_five_stops_the_pass_there() {
    let feed = five_pages();
    let mut fetched = 0;
    let mut sync = CatalogSync::start(Some("905".to_string()));
    let rows = loop {
        let page = sync.page() as usize;
        fetched += 1;
        match sync.step(SyncEvent::Page(&feed[page - 1])) {
            SyncStep::Fetch(next) => sync = next,
            SyncStep::Persist(rows) => break rows,
            SyncStep::Abort(error) => panic!("the pass failed: {:?}", error),
        }
    };
    assert_eq!(fetched, 3);
    assert_eq!(ids_of(&rows), vec!["910", "909", "908", "907", "906"]);
}

#[test]
fn cursor_in_the_middle_of_a_page_cuts_the_page() {
    let feed = vec![page(50, &["910", "909", "908"]), page(50, &["907", "906", "905"])];
    let found = get_new_videos(Some("906".to_string()), &feed).unwrap().unwrap();
    assert_eq!(ids_of(&found), vec!["910", "909", "908", "907"]);
}

#[test]
fn sync_once_with_cursor_inserts_what_precedes_it() {
    let mut table = table_with(&["905", "904", "903", "902", "901"]);
    let inserted = sync_once(&mut table, &five_pages());
    assert_eq!(inserted, Ok(5));
    assert_eq!(
        ids_of(table.rows()),
        vec!["905", "904", "903", "902", "901", "910", "909", "908", "907", "906"]
    );
}

#[test]
fn empty_store_takes_every_video_in_feed_order() {
    let mut table = VideoTable::new();
    let inserted = sync_once(&mut table, &five_pages());
    assert_eq!(inserted, Ok(10));
    assert_eq!(
        ids_of(table.rows()),
        vec!["910", "909", "908", "907", "906", "905", "904", "903", "902", "901"]
    );
    for row in table.rows() {
        assert_eq!(row.video_views, 0);
    }
}

#[test]
fn second_pass_inserts_nothing() {
    let mut table = VideoTable::new();
    let feed = five_pages();
    assert_eq!(sync_once(&mut table, &feed), Ok(10));
    let before: Vec<String> = ids_of(table.rows());
    assert_eq!(sync_once(&mut table, &feed), Ok(0));
    assert_eq!(ids_of(table.rows()), before);
    assert_eq!(sync_once(&mut table, &feed), Ok(0));
    assert_eq!(ids_of(table.rows()), before);
}

#[test]
fn second_pass_after_partial_store_inserts_nothing() {
    let mut table = table_with(&["907", "906"]);
    let feed = five_pages();
    assert_eq!(sync_once(&mut table, &feed), Ok(3));
    assert_eq!(get_latest_bc_video_id(&table), Some("910".to_string()));
    assert_eq!(sync_once(&mut table, &feed), Ok(0));
    assert_eq!(table.rows().len(), 5);
}

#[test]
fn catalog_that_lists_an_older_id_first_is_stored_again() {
    let mut table = VideoTable::new();
    let feed = vec![page(2, &["a", "b"])];
    assert_eq!(sync_once(&mut table, &feed), Ok(2));
    assert_eq!(get_latest_bc_video_id(&table), Some("b".to_string()));
    assert_eq!(sync_once(&mut table, &feed), Ok(1));
    assert_eq!(ids_of(table.rows()), vec!["a", "b", "a"]);
}

#[test]
fn nothing_new_is_reported_as_none() {
    let feed = vec![page(2, &["910", "909"])];
    assert_eq!(get_new_videos(Some("910".to_string()), &feed), Ok(None));
}

#[test]
fn unknown_cursor_takes_every_page() {
    let feed = five_pages();
    let found = get_new_videos(Some("000".to_string()), &feed).unwrap().unwrap();
    assert_eq!(found.len(), 10);
}

#[test]
fn catalog_without_videos_ends_after_one_page() {
    let empty = page(0, &[]);
    match CatalogSync::start(None).step(SyncEvent::Page(&empty)) {
        SyncStep::Persist(rows) => assert!(rows.is_empty()),
        _ => panic!("an empty catalog did not end the pass"),
    }
    let mut table = VideoTable::new();
    assert_eq!(sync_once(&mut table, &vec![empty]), Ok(0));
    assert!(table.rows().is_empty());
}

#[test]
fn declared_count_of_zero_hides_the_videos_of_the_page() {
    let feed = vec![page(0, &["910", "909"])];
    assert_eq!(get_new_videos(None, &feed), Ok(None));
}

#[test]
fn pages_beyond_the_declared_count_are_not_read() {
    let feed = vec![page(25, &["910", "909"]), page(25, &["908", "907"])];
    let found = get_new_videos(None, &feed).unwrap().unwrap();
    assert_eq!(ids_of(&found), vec!["910", "909"]);
}

#[test]
fn failed_fetch_aborts_the_pass() {
    let feed = five_pages();
    let sync = CatalogSync::start(None);
    let sync = match sync.step(SyncEvent::Page(&feed[0])) {
        SyncStep::Fetch(next) => next,
        _ => panic!("the pass ended on the first of five pages"),
    };
    match sync.step(SyncEvent::Failed(SyncError::Decode)) {
        SyncStep::Abort(error) => assert_eq!(error, SyncError::Decode),
        _ => panic!("the pass went on after a failed fetch"),
    }
    match CatalogSync::start(None).step(SyncEvent::Failed(SyncError::Fetch)) {
        SyncStep::Abort(error) => assert_eq!(error, SyncError::Fetch),
        _ => panic!("the pass went on after a failed fetch"),
    }
}

#[test]
fn missing_page_fails_the_pass_and_stores_nothing() {
    let mut table = table_with(&["100"]);
    let feed = vec![page(50, &["910", "909"])];
    assert_eq!(sync_once(&mut table, &feed), Err(SyncError::Fetch));
    assert_eq!(ids_of(table.rows()), vec!["100"]);
    assert_eq!(sync_once(&mut table, &Vec::new()), Err(SyncError::Fetch));
    assert_eq!(ids_of(table.rows()), vec!["100"]);
}

#[test]
fn cursor_found_before_a_missing_page_saves_the_pass() {
    let mut table = table_with(&["909"]);
    let feed = vec![page(50, &["910", "909"])];
    assert_eq!(sync_once(&mut table, &feed), Ok(1));
    assert_eq!(ids_of(table.rows()), vec!["909", "910"]);
}

#[test]
fn collect_new_videos_appends_until_the_cursor() {
    let listed = page(3, &["3", "2", "1"]).videos;
    let mut pending = vec![VideoRow::from(&video("4"))];
    let hit = collect_new_videos(&Some("1".to_string()), &listed, &mut pending);
    assert!(hit);
    assert_eq!(ids_of(&pending), vec!["4", "3", "2"]);
    let mut pending = Vec::new();
    let hit = collect_new_videos(&None, &listed, &mut pending);
    assert!(!hit);
    assert_eq!(ids_of(&pending), vec!["3", "2", "1"]);
    let mut pending = Vec::new();
    let hit = collect_new_videos(&Some("3".to_string()), &listed, &mut pending);
    assert!(hit);
    assert!(pending.is_empty());
}

#[test]
fn new_rows_start_with_no_views() {
    let feed = vec![page(1, &["910"])];
    let found = get_new_videos(None, &feed).unwrap().unwrap();
    assert_eq!(found.len(), 1);
    assert_eq!(found[0], VideoRow::from(&video("910")));
    assert_eq!(found[0].video_views, 0);
    assert_eq!(found[0].name, "race 910");
}
