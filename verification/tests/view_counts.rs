use catalog_mirror::brightcove::analytics::{view_updates, Video, VideosResponse, ViewUpdate};
use catalog_mirror::db::{save_videos, VideoRow, VideoTable};
use catalog_mirror::error::{PersistenceError, SyncError};
use catalog_mirror::mirror::reconcile_once;
use catalog_mirror::views::{ReconcileStep, ViewReconciler};

fn entry(id: Option<&str>, views: u32) -> Video {
    Video { video: id.map(|id| id.to_string()), video_view: views }
}

fn report(entries: Vec<Video>) -> VideosResponse {
    VideosResponse { item_count: entries.len() as u32, items: entries }
}

fn row(id: &str, views: u32) -> VideoRow {
    VideoRow {
        name: format!("race {}", id),
        thumbnail: String::new(),
        numero_corsa: "01".to_string(),
        data: "2022/03/20".to_string(),
        tipologia: None,
        cavalli: None,
        fantini: None,
        primo: None,
        secondo: None,
        terzo: None,
        ippodromo: "FIRENZE".to_string(),
        video_views: views,
        bc_video_id: id.to_string(),
    }
}

fn table_of(rows: Vec<VideoRow>) -> VideoTable {
    let mut table = VideoTable::new();
    save_videos(&mut table, &rows);
    table
}

fn update(id: &str, views: u32) -> ViewUpdate {
    ViewUpdate { bc_video_id: id.to_string(), views }
}

#[test]
fn entry_without_id_is_dropped() {
    let body = report(vec![entry(Some("v1"), 5), entry(None, 9), entry(Some("v2"), 1)]);
    assert_eq!(view_updates(&body), vec![update("v1", 5), update("v2", 1)]);
}

#[test]
fn report_of_unnamed_entries_asks_for_nothing() {
    assert!(view_updates(&report(vec![entry(None, 2), entry(None, 3)])).is_empty());
    assert!(view_updates(&report(Vec::new())).is_empty());
}

#[test]
fn declared_count_does_not_decide_the_updates() {
    let body = VideosResponse {
        item_count: 49,
        items: vec![entry(Some("v1_id"), 1), entry(Some("v2_id"), 2), entry(None, 2)],
    };
    assert_eq!(view_updates(&body), vec![update("v1_id", 1), update("v2_id", 2)]);
    let body = VideosResponse { item_count: 0, items: vec![entry(Some("v1_id"), 1)] };
    assert_eq!(view_updates(&body), vec![update("v1_id", 1)]);
}

#[test]
fn reconcile_writes_the_two_named_entries() {
    let mut table = table_of(vec![row("v1", 0), row("v2", 0), row("v3", 4)]);
    let body = report(vec![entry(Some("v1"), 5), entry(None, 9), entry(Some("v2"), 1)]);
    assert_eq!(reconcile_once(&mut table, Ok(body)), Ok(2));
    assert_eq!(table.rows(), &vec![row("v1", 5), row("v2", 1), row("v3", 4)]);
}

#[test]
fn reconcile_passes_over_videos_not_stored() {
    let mut table = table_of(vec![row("v2", 3)]);
    let body = report(vec![entry(Some("v1"), 5), entry(None, 9), entry(Some("v2"), 1)]);
    assert_eq!(reconcile_once(&mut table, Ok(body)), Ok(1));
    assert_eq!(table.rows(), &vec![row("v2", 1)]);
    let mut empty = VideoTable::new();
    let body = report(vec![entry(Some("v1"), 5)]);
    assert_eq!(reconcile_once(&mut empty, Ok(body)), Ok(0));
    assert!(empty.rows().is_empty());
}

#[test]
fn later_entry_of_the_same_video_wins() {
    let mut table = table_of(vec![row("v1", 0)]);
    let body = report(vec![entry(Some("v1"), 5), entry(Some("v1"), 8)]);
    assert_eq!(reconcile_once(&mut table, Ok(body)), Ok(2));
    assert_eq!(table.rows(), &vec![row("v1", 8)]);
}

#[test]
fn failed_report_writes_nothing() {
    let mut table = table_of(vec![row("v1", 2)]);
    assert_eq!(reconcile_once(&mut table, Err(SyncError::Fetch)), Err(SyncError::Fetch));
    assert_eq!(reconcile_once(&mut table, Err(SyncError::Decode)), Err(SyncError::Decode));
    assert_eq!(table.rows(), &vec![row("v1", 2)]);
}

#[test]
fn reconciler_holds_out_the_updates_in_order() {
    let body = report(vec![entry(Some("v1"), 5), entry(None, 9), entry(Some("v2"), 1)]);
    let state = match ViewReconciler::begin(Ok(body)) {
        ReconcileStep::Write(state) => state,
        _ => panic!("a report with named entries asked for no write"),
    };
    assert_eq!(state.update(), &update("v1", 5));
    let state = match state.record(Ok(true)) {
        ReconcileStep::Write(state) => state,
        _ => panic!("the pass ended before its second write"),
    };
    assert_eq!(state.update(), &update("v2", 1));
    match state.record(Ok(true)) {
        ReconcileStep::Done(updated) => assert_eq!(updated, 2),
        _ => panic!("the pass did not end after its last write"),
    }
}

#[test]
fn failed_write_does_not_stop_the_pass() {
    let body = report(vec![entry(Some("v1"), 5), entry(Some("v2"), 1), entry(Some("v3"), 7)]);
    let state = match ViewReconciler::begin(Ok(body)) {
        ReconcileStep::Write(state) => state,
        _ => panic!("a report with named entries asked for no write"),
    };
    let state = match state.record(Err(PersistenceError::Store)) {
        ReconcileStep::Write(state) => state,
        _ => panic!("a failed write ended the pass"),
    };
    assert_eq!(state.update(), &update("v2", 1));
    let state = match state.record(Ok(false)) {
        ReconcileStep::Write(state) => state,
        _ => panic!("a write that found no row ended the pass"),
    };
    assert_eq!(state.update(), &update("v3", 7));
    match state.record(Ok(true)) {
        ReconcileStep::Done(updated) => assert_eq!(updated, 1),
        _ => panic!("the pass did not end after its last write"),
    }
}

#[test]
fn reconciler_ends_at_once_without_named_entries() {
    match ViewReconciler::begin(Ok(report(vec![entry(None, 9)]))) {
        ReconcileStep::Done(updated) => assert_eq!(updated, 0),
        _ => panic!("a report without named entries asked for a write"),
    }
    match ViewReconciler::begin(Err(SyncError::Fetch)) {
        ReconcileStep::Abort(error) => assert_eq!(error, SyncError::Fetch),
        _ => panic!("a failed fetch did not abort the pass"),
    }
}
