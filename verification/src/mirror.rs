//! Whole passes of the mirror over the in-memory table, and what holds of
//! them.

use crate::brightcove::analytics::{
    spec_view_updates, VideosResponse, VideosResponseModel, ViewUpdateModel,
};
use crate::brightcove::{PlayerResponse, PlayerResponseModel, VideoModel};
use crate::db::{
    get_latest_bc_video_id, lemma_latest_id_ranks_last, lemma_latest_id_unique, row_of_video,
    rows_of_videos, save_videos, spec_has_id, spec_latest_id, spec_update_views,
    update_video_views, VideoRowModel, VideoTable,
};
use crate::error::SyncError;
use crate::sync::{
    all_videos, fresh_videos, get_new_videos, holds_cursor, lemma_first_hit,
    lemma_first_hit_page, lemma_first_hit_unique, spec_pass, wanted_pages, PassModel,
};
use crate::text_order::text_before;
use crate::views::{spec_fetched, ReconcileStep, ReconcileStepModel, ViewReconciler};
use vstd::prelude::*;

verus! {

/// One catalog pass: reads the cursor off the table, runs a pass over
/// `feed` and stores what is new. Returns the number of rows stored.
///
/// A pass that fails stores nothing.
pub fn sync_once(
    table: &mut VideoTable,
    feed: &Vec<PlayerResponse>,
) -> (inserted: Result<usize, SyncError>)
    ensures
        match spec_pass(spec_latest_id(old(table)@), feed.deep_view()).outcome {
            Ok(rows) => inserted matches Ok(stored) && stored == rows.len() && final(table)@
                == old(table)@ + rows,
            Err(error) => inserted == Err::<usize, SyncError>(error) && final(table)@ == old(
                table,
            )@,
        },
{
    let latest = get_latest_bc_video_id(table);
    match get_new_videos(latest, feed) {
        Ok(Some(new_videos)) => {
            save_videos(table, &new_videos);
            Ok(new_videos.len())
        },
        Ok(None) => {
            assert(table@ + Seq::<VideoRowModel>::empty() == table@);
            Ok(0)
        },
        Err(error) => Err(error),
    }
}

/// `rows` after the updates were written one after the other.
pub open spec fn spec_apply_updates(rows: Seq<VideoRowModel>, updates: Seq<ViewUpdateModel>) -> Seq<
    VideoRowModel,
>
    decreases updates.len(),
{
    if updates.len() == 0 {
        rows
    } else {
        spec_update_views(
            spec_apply_updates(rows, updates.drop_last()),
            updates.last().bc_video_id,
            updates.last().views,
        )
    }
}

/// Number of `updates` whose id one of `rows` carries.
pub open spec fn spec_matched(rows: Seq<VideoRowModel>, updates: Seq<ViewUpdateModel>) -> int
    decreases updates.len(),
{
    if updates.len() == 0 {
        0
    } else if spec_has_id(rows, updates.last().bc_video_id) {
        spec_matched(rows, updates.drop_last()) + 1
    } else {
        spec_matched(rows, updates.drop_last())
    }
}

/// Writing a view count changes no id: the table carries the same ids
/// before and after.
pub proof fn lemma_update_keeps_ids(
    rows: Seq<VideoRowModel>,
    id: Seq<char>,
    views: u32,
    other: Seq<char>,
)
    ensures
        spec_has_id(spec_update_views(rows, id, views), other) == spec_has_id(rows, other),
{
    let after = spec_update_views(rows, id, views);
    if spec_has_id(rows, other) {
        let at = choose|i: int| 0 <= i < rows.len() && (#[trigger] rows[i]).bc_video_id == other;
        assert(after[at].bc_video_id == other);
    }
    if spec_has_id(after, other) {
        let at = choose|i: int| 0 <= i < after.len() && (#[trigger] after[i]).bc_video_id == other;
        assert(rows[at].bc_video_id == other);
    }
}

/// Writing a run of view counts changes no id.
pub proof fn lemma_updates_keep_ids(
    rows: Seq<VideoRowModel>,
    updates: Seq<ViewUpdateModel>,
    other: Seq<char>,
)
    ensures
        spec_has_id(spec_apply_updates(rows, updates), other) == spec_has_id(rows, other),
    decreases updates.len(),
{
    if updates.len() > 0 {
        lemma_updates_keep_ids(rows, updates.drop_last(), other);
        lemma_update_keeps_ids(
            spec_apply_updates(rows, updates.drop_last()),
            updates.last().bc_video_id,
            updates.last().views,
            other,
        );
    }
}

/// One reconciliation pass: takes the outcome of fetching the report and
/// writes the count of every entry that names a video. Returns the number of
/// writes that found a row.
///
/// A failed fetch writes nothing. A count for a video that is not stored is
/// passed over.
pub fn reconcile_once(
    table: &mut VideoTable,
    fetched: Result<VideosResponse, SyncError>,
) -> (updated: Result<usize, SyncError>)
    ensures
        match spec_fetched(fetched) {
            Ok(report) => updated matches Ok(changed) && changed == spec_matched(
                old(table)@,
                spec_view_updates(report.items),
            ) && final(table)@ == spec_apply_updates(
                old(table)@,
                spec_view_updates(report.items),
            ),
            Err(error) => updated == Err::<usize, SyncError>(error) && final(table)@ == old(
                table,
            )@,
        },
{
    let ghost before = table@;
    let ghost asked = match spec_fetched(fetched) {
        Ok(report) => spec_view_updates(report.items),
        Err(_) => Seq::empty(),
    };
    let mut step = ViewReconciler::begin(fetched);
    proof {
        assert(asked.take(0) == Seq::<ViewUpdateModel>::empty());
    }
    loop
        invariant
            before == old(table)@,
            spec_fetched(fetched) matches Ok(report) ==> asked == spec_view_updates(report.items),
            match step@ {
                ReconcileStepModel::Write(state) => {
                    &&& spec_fetched(fetched) is Ok
                    &&& state.updates == asked
                    &&& 0 <= state.next < asked.len()
                    &&& table@ == spec_apply_updates(before, asked.take(state.next))
                    &&& state.updated == spec_matched(before, asked.take(state.next))
                },
                ReconcileStepModel::Done(changed) => {
                    &&& spec_fetched(fetched) is Ok
                    &&& table@ == spec_apply_updates(before, asked)
                    &&& changed == spec_matched(before, asked)
                },
                ReconcileStepModel::Abort(error) => {
                    &&& spec_fetched(fetched) == Err::<VideosResponseModel, SyncError>(error)
                    &&& table@ == before
                },
            },
        decreases
            match step@ {
                ReconcileStepModel::Write(state) => asked.len() - state.next + 1,
                _ => 0,
            },
    {
        match step {
            ReconcileStep::Write(state) => {
                let ghost at = state@.next;
                let update = state.update();
                let id = update.bc_video_id.clone();
                let views = update.views;
                let found = update_video_views(table, id.as_str(), &views);
                proof {
                    let written = asked.take(at + 1);
                    assert(written.drop_last() == asked.take(at));
                    assert(written.last() == asked[at]);
                    lemma_updates_keep_ids(before, asked.take(at), asked[at].bc_video_id);
                    if at + 1 == asked.len() {
                        assert(written == asked);
                    }
                }
                step = state.record(Ok(found));
            },
            ReconcileStep::Done(changed) => {
                return Ok(changed);
            },
            ReconcileStep::Abort(error) => {
                return Err(error);
            },
        }
    }
}

/// Whether the catalog's order agrees with the table's: no stored id ranks
/// behind the id of the first listed video. A listing without videos agrees
/// with every table.
pub open spec fn spec_newest_ranks_last(
    stored: Seq<VideoRowModel>,
    listed: Seq<VideoModel>,
) -> bool {
    listed.len() > 0 ==> forall|i: int|
        0 <= i < stored.len() ==> !text_before(listed[0].id, (#[trigger] stored[i]).bc_video_id)
}

/// The rows that a pass stores: none where it fails.
pub open spec fn spec_stored(pass: PassModel) -> Seq<VideoRowModel> {
    match pass.outcome {
        Ok(rows) => rows,
        Err(_) => Seq::empty(),
    }
}

/// A second pass over an unchanged catalog stores nothing, exactly where the
/// first pass failed or the catalog's order agrees with the table's.
///
/// The cursor is the id that ranks last in the table. After a pass it is the
/// id of the catalog's first video only if no id stored before or by that
/// pass ranks behind it; a catalog that lists an older id first has its
/// videos stored again.
pub proof fn lemma_second_pass_stores_nothing(
    rows: Seq<VideoRowModel>,
    feed: Seq<PlayerResponseModel>,
)
    ensures
        ({
            let first = spec_pass(spec_latest_id(rows), feed);
            let second = spec_pass(spec_latest_id(rows + spec_stored(first)), feed);
            spec_stored(second).len() == 0 <==> first.outcome is Err || spec_newest_ranks_last(
                rows + spec_stored(first),
                all_videos(wanted_pages(feed)),
            )
        }),
{
    let cursor = spec_latest_id(rows);
    let wanted = wanted_pages(feed);
    let listed = all_videos(wanted);
    let first = spec_stored(spec_pass(cursor, feed));
    let stored = rows + first;
    let moved = spec_latest_id(stored);
    let second = spec_pass(moved, feed).outcome;
    lemma_first_hit_page(wanted, cursor);
    lemma_first_hit_page(wanted, moved);
    lemma_latest_id_ranks_last(rows);
    lemma_latest_id_ranks_last(stored);
    if spec_pass(cursor, feed).outcome is Err {
        assert(stored == rows);
    } else if wanted.len() == 0 {
        assert(listed.len() == 0);
    } else if listed.len() == 0 {
        assert(fresh_videos(listed, moved) == Seq::<VideoModel>::empty());
        assert(rows_of_videos(fresh_videos(listed, moved)) == Seq::<VideoRowModel>::empty());
    } else {
        let newest = listed[0].id;
        assert(first == rows_of_videos(fresh_videos(listed, cursor)));
        if fresh_videos(listed, cursor).len() > 0 {
            if let Some(id) = cursor {
                lemma_first_hit(listed, id);
            }
            assert(fresh_videos(listed, cursor)[0] == listed[0]);
            assert(first[0] == row_of_video(listed[0]));
            assert(stored[rows.len() as int] == first[0]);
        } else {
            lemma_first_hit(listed, cursor->0);
            let at = choose|i: int|
                0 <= i < rows.len() && (#[trigger] rows[i]).bc_video_id == newest;
            assert(stored[at] == rows[at]);
        }
        assert(spec_has_id(stored, newest));
        if spec_newest_ranks_last(stored, listed) {
            lemma_latest_id_unique(stored, newest);
        }
        if moved == Some(newest) {
            lemma_first_hit_unique(listed, newest, 0);
            assert(fresh_videos(listed, moved) == Seq::<VideoModel>::empty());
            assert(rows_of_videos(fresh_videos(listed, moved)) == Seq::<VideoRowModel>::empty());
        } else {
            let latest = moved->0;
            lemma_first_hit(listed, latest);
            let at = choose|i: int|
                0 <= i < stored.len() && (#[trigger] stored[i]).bc_video_id == latest;
            if at < rows.len() {
                assert forall|i: int| 0 <= i < rows.len() implies !text_before(
                    latest,
                    (#[trigger] rows[i]).bc_video_id,
                ) by {
                    assert(stored[i] == rows[i]);
                }
                assert(stored[at] == rows[at]);
                lemma_latest_id_unique(rows, latest);
                assert(moved == cursor);
            } else {
                let fresh = fresh_videos(listed, cursor);
                assert(stored[at] == row_of_video(fresh[at - rows.len()]));
                if let Some(id) = cursor {
                    lemma_first_hit(listed, id);
                }
                assert(listed[at - rows.len()].id == latest);
                assert(holds_cursor(listed, moved));
            }
            assert(second is Ok);
            assert(fresh_videos(listed, moved).len() > 0);
            assert(rows_of_videos(fresh_videos(listed, moved)).len() > 0);
        }
    }
}

/// Neither pass takes a video out of the table: an id that is stored stays
/// stored when new rows are stored and when view counts are written.
pub proof fn lemma_coverage_never_shrinks(
    rows: Seq<VideoRowModel>,
    new_rows: Seq<VideoRowModel>,
    updates: Seq<ViewUpdateModel>,
    id: Seq<char>,
)
    requires
        spec_has_id(rows, id),
    ensures
        spec_has_id(rows + new_rows, id),
        spec_has_id(spec_apply_updates(rows, updates), id),
{
    let at = choose|i: int| 0 <= i < rows.len() && (#[trigger] rows[i]).bc_video_id == id;
    assert((rows + new_rows)[at] == rows[at]);
    lemma_updates_keep_ids(rows, updates, id);
}

/// The catalog fields of a row: the row with its view count put aside.
pub open spec fn spec_catalog_fields(row: VideoRowModel) -> VideoRowModel {
    VideoRowModel { video_views: 0, ..row }
}

/// Writing one run of view counts and then another is writing the two runs
/// joined.
pub proof fn lemma_updates_of_joined(
    rows: Seq<VideoRowModel>,
    earlier: Seq<ViewUpdateModel>,
    later: Seq<ViewUpdateModel>,
)
    ensures
        spec_apply_updates(spec_apply_updates(rows, earlier), later) == spec_apply_updates(
            rows,
            earlier + later,
        ),
    decreases later.len(),
{
    if later.len() == 0 {
        assert(earlier + later == earlier);
    } else {
        lemma_updates_of_joined(rows, earlier, later.drop_last());
        assert((earlier + later).drop_last() == earlier + later.drop_last());
        assert((earlier + later).last() == later.last());
    }
}

/// A catalog pass and a reconciliation pass do not touch each other's
/// fields, wherever the rows of the one are stored between the writes of the
/// other.
///
/// Storing new rows changes no row that is there, and writing a count
/// changes no catalog field. So the rows that were there end with the view
/// counts that the writes alone would have left, and every row, old or new,
/// ends with the catalog fields it was stored with.
pub proof fn lemma_passes_keep_apart(
    rows: Seq<VideoRowModel>,
    new_rows: Seq<VideoRowModel>,
    earlier: Seq<ViewUpdateModel>,
    later: Seq<ViewUpdateModel>,
)
    ensures
        ({
            let mixed = spec_apply_updates(spec_apply_updates(rows, earlier) + new_rows, later);
            &&& mixed.len() == rows.len() + new_rows.len()
            &&& mixed.take(rows.len() as int) == spec_apply_updates(rows, earlier + later)
            &&& forall|i: int|
                0 <= i < mixed.len() ==> spec_catalog_fields(#[trigger] mixed[i])
                    == spec_catalog_fields((rows + new_rows)[i])
        }),
    decreases later.len(),
{
    let counted = spec_apply_updates(rows, earlier);
    let mixed = spec_apply_updates(counted + new_rows, later);
    if later.len() == 0 {
        lemma_updates_keep_fields(rows, earlier);
        assert(earlier + later == earlier);
        assert(mixed.take(rows.len() as int) == counted);
    } else {
        let before = spec_apply_updates(counted + new_rows, later.drop_last());
        lemma_passes_keep_apart(rows, new_rows, earlier, later.drop_last());
        assert((earlier + later).drop_last() == earlier + later.drop_last());
        assert((earlier + later).last() == later.last());
        assert(mixed.take(rows.len() as int) == spec_update_views(
            before.take(rows.len() as int),
            later.last().bc_video_id,
            later.last().views,
        ));
    }
}

/// Writing a run of view counts changes neither the number of rows nor a
/// catalog field.
pub proof fn lemma_updates_keep_fields(rows: Seq<VideoRowModel>, updates: Seq<ViewUpdateModel>)
    ensures
        spec_apply_updates(rows, updates).len() == rows.len(),
        forall|i: int|
            0 <= i < rows.len() ==> spec_catalog_fields(
                #[trigger] spec_apply_updates(rows, updates)[i],
            ) == spec_catalog_fields(rows[i]),
    decreases updates.len(),
{
    if updates.len() > 0 {
        lemma_updates_keep_fields(rows, updates.drop_last());
    }
}

} // verus!
