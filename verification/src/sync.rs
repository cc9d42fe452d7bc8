//! Incremental discovery of the catalog's new videos.
//!
//! The catalog lists its videos newest first, in pages. A pass reads the
//! pages in order and gathers videos until it meets the cursor, the id of the
//! newest video already stored. [`CatalogSync`] holds the decisions of a pass
//! and leaves the fetching to its caller; [`get_new_videos`] runs a pass over
//! pages that are already at hand.

use crate::brightcove::{
    spec_page_offset, spec_total_pages, total_pages, PlayerResponse, PlayerResponseModel, Video,
    VideoModel, VIDEOS_PER_PAGE,
};
use crate::db::{row_of_video, rows_of_videos, VideoRow, VideoRowModel};
use crate::error::SyncError;
use vstd::prelude::*;

verus! {

/// Index of the first of `videos` whose id is `cursor`, or their number
/// where none has it.
pub open spec fn first_hit(videos: Seq<VideoModel>, cursor: Seq<char>) -> int
    decreases videos.len(),
{
    if videos.len() == 0 {
        0
    } else if videos[0].id == cursor {
        0
    } else {
        1 + first_hit(videos.drop_first(), cursor)
    }
}

/// Whether one of `videos` carries the cursor's id. Without a cursor none
/// does.
pub open spec fn holds_cursor(videos: Seq<VideoModel>, cursor: Option<Seq<char>>) -> bool {
    match cursor {
        None => false,
        Some(id) => first_hit(videos, id) < videos.len(),
    }
}

/// The videos of a newest-first listing that are not yet known: all of them
/// without a cursor, else those that precede the cursor's first occurrence.
pub open spec fn fresh_videos(videos: Seq<VideoModel>, cursor: Option<Seq<char>>) -> Seq<
    VideoModel,
> {
    match cursor {
        None => videos,
        Some(id) => videos.take(first_hit(videos, id)),
    }
}

/// `first_hit` is a position of the listing or its end, no earlier video
/// carries the id, and the video at the position does.
pub proof fn lemma_first_hit(videos: Seq<VideoModel>, cursor: Seq<char>)
    ensures
        0 <= first_hit(videos, cursor) <= videos.len(),
        forall|j: int| 0 <= j < first_hit(videos, cursor) ==> (#[trigger] videos[j]).id != cursor,
        first_hit(videos, cursor) < videos.len() ==> videos[first_hit(videos, cursor)].id
            == cursor,
    decreases videos.len(),
{
    if videos.len() > 0 && videos[0].id != cursor {
        let rest = videos.drop_first();
        lemma_first_hit(rest, cursor);
        assert forall|j: int| 0 <= j < first_hit(videos, cursor) implies (#[trigger] videos[j]).id
            != cursor by {
            if j > 0 {
                assert(videos[j] == rest[j - 1]);
            }
        }
    }
}

/// The position that `lemma_first_hit` describes is the only one.
pub proof fn lemma_first_hit_unique(videos: Seq<VideoModel>, cursor: Seq<char>, at: int)
    requires
        0 <= at <= videos.len(),
        forall|j: int| 0 <= j < at ==> (#[trigger] videos[j]).id != cursor,
        at < videos.len() ==> videos[at].id == cursor,
    ensures
        first_hit(videos, cursor) == at,
{
    lemma_first_hit(videos, cursor);
    let found = first_hit(videos, cursor);
    if found < at {
        assert(videos[found].id != cursor);
    } else if at < found {
        assert(videos[at].id != cursor);
    }
}

/// Appends to `pending` the rows of the videos of one page that are not yet
/// known, in the page's order, and reports whether the page held the cursor.
pub fn collect_new_videos(
    cursor: &Option<String>,
    videos: &Vec<Video>,
    pending: &mut Vec<VideoRow>,
) -> (hit: bool)
    ensures
        final(pending).deep_view() == old(pending).deep_view() + rows_of_videos(
            fresh_videos(videos.deep_view(), cursor.deep_view()),
        ),
        hit == holds_cursor(videos.deep_view(), cursor.deep_view()),
{
    let ghost before = pending.deep_view();
    let ghost listed = videos.deep_view();
    let mut i: usize = 0;
    while i < videos.len()
        invariant
            i <= videos.len(),
            listed == videos.deep_view(),
            before == old(pending).deep_view(),
            pending.deep_view() == before + rows_of_videos(listed.take(i as int)),
            cursor matches Some(id) ==> forall|j: int|
                0 <= j < i ==> (#[trigger] listed[j]).id != id@,
        decreases videos.len() - i,
    {
        let video = &videos[i];
        let known = match cursor {
            Some(id) => video.id == *id,
            None => false,
        };
        assert(listed[i as int] == video@);
        if known {
            proof {
                assert(cursor.deep_view() == Some(cursor.unwrap()@));
                lemma_first_hit_unique(listed, cursor.unwrap()@, i as int);
            }
            return true;
        }
        let ghost gathered = pending.deep_view();
        pending.push(VideoRow::from(video));
        proof {
            assert(listed.take(i + 1) == listed.take(i as int).push(video@));
            assert(pending.deep_view() == gathered.push(row_of_video(video@)));
            assert(rows_of_videos(listed.take(i + 1)) == rows_of_videos(
                listed.take(i as int),
            ).push(row_of_video(video@)));
        }
        i += 1;
    }
    proof {
        assert(listed.take(i as int) == listed);
        if let Some(id) = cursor {
            lemma_first_hit_unique(listed, id@, listed.len() as int);
        }
    }
    false
}

/// Mathematical value of a [`CatalogSync`]: a pass that awaits a page.
pub struct CatalogSyncModel {
    /// Id of the newest video already stored, if any is.
    pub cursor: Option<Seq<char>>,
    /// Number of the page awaited, counted from one.
    pub page: int,
    /// Number of pages of the catalog, known once the first page has come.
    pub total_pages: Option<int>,
    /// Rows gathered from the pages read so far, in the catalog's order.
    pub pending: Seq<VideoRowModel>,
}

/// Mathematical value of a [`SyncEvent`].
pub enum SyncEventModel {
    Page(PlayerResponseModel),
    Failed(SyncError),
}

/// Mathematical value of a [`SyncStep`].
pub enum SyncStepModel {
    Fetch(CatalogSyncModel),
    Persist(Seq<VideoRowModel>),
    Abort(SyncError),
}

/// The pass that has read nothing yet: it awaits the first page.
pub open spec fn spec_start(cursor: Option<Seq<char>>) -> CatalogSyncModel {
    CatalogSyncModel { cursor, page: 1, total_pages: None, pending: Seq::empty() }
}

/// What a pass does with the outcome of the fetch it asked for.
///
/// A failure ends the pass with nothing to store. The first page fixes the
/// number of pages, `count / 25` rounded up; a catalog of no pages ends the
/// pass at once. Otherwise the page's new videos are gathered, and the pass
/// ends where the page holds the cursor or is the last one.
pub open spec fn spec_step(state: CatalogSyncModel, event: SyncEventModel) -> SyncStepModel {
    match event {
        SyncEventModel::Failed(error) => SyncStepModel::Abort(error),
        SyncEventModel::Page(response) => {
            let total = match state.total_pages {
                Some(known) => known,
                None => spec_total_pages(response.count as int),
            };
            let pending = state.pending + rows_of_videos(
                fresh_videos(response.videos, state.cursor),
            );
            if state.page > total {
                SyncStepModel::Persist(state.pending)
            } else if holds_cursor(response.videos, state.cursor) || state.page == total {
                SyncStepModel::Persist(pending)
            } else {
                SyncStepModel::Fetch(
                    CatalogSyncModel {
                        cursor: state.cursor,
                        page: state.page + 1,
                        total_pages: Some(total),
                        pending,
                    },
                )
            }
        },
    }
}

/// A pass over the catalog that awaits a page.
///
/// The caller fetches page [`CatalogSync::page`] at [`CatalogSync::offset`]
/// and hands the outcome to [`CatalogSync::step`].
pub struct CatalogSync {
    cursor: Option<String>,
    page: u32,
    total_pages: Option<u32>,
    pending: Vec<VideoRow>,
}

/// Outcome of the fetch that a pass asked for.
pub enum SyncEvent<'a> {
    /// The page came.
    Page(&'a PlayerResponse),
    /// The page could not be had.
    Failed(SyncError),
}

/// What the caller of a pass does next.
pub enum SyncStep {
    /// Fetch the page that this pass awaits.
    Fetch(CatalogSync),
    /// The pass is over: store these rows, in this order.
    Persist(Vec<VideoRow>),
    /// The pass failed: store nothing.
    Abort(SyncError),
}

impl View for CatalogSync {
    type V = CatalogSyncModel;

    closed spec fn view(&self) -> CatalogSyncModel {
        CatalogSyncModel {
            cursor: self.cursor.deep_view(),
            page: self.page as int,
            total_pages: match self.total_pages {
                Some(known) => Some(known as int),
                None => None,
            },
            pending: self.pending.deep_view(),
        }
    }
}

impl<'a> View for SyncEvent<'a> {
    type V = SyncEventModel;

    open spec fn view(&self) -> SyncEventModel {
        match self {
            SyncEvent::Page(response) => SyncEventModel::Page(response@),
            SyncEvent::Failed(error) => SyncEventModel::Failed(*error),
        }
    }
}

impl View for SyncStep {
    type V = SyncStepModel;

    open spec fn view(&self) -> SyncStepModel {
        match self {
            SyncStep::Fetch(state) => SyncStepModel::Fetch(state@),
            SyncStep::Persist(rows) => SyncStepModel::Persist(rows.deep_view()),
            SyncStep::Abort(error) => SyncStepModel::Abort(*error),
        }
    }
}

impl CatalogSync {
    #[verifier::type_invariant]
    spec fn well_formed(self) -> bool {
        &&& 1 <= self.page
        &&& match self.total_pages {
            Some(known) => self.page <= known && spec_page_offset(known as int) <= u32::MAX,
            None => self.page == 1,
        }
    }

    /// Begins a pass with the id of the newest stored video, or with `None`
    /// where nothing is stored yet.
    pub fn start(cursor: Option<String>) -> (state: CatalogSync)
        ensures
            state@ == spec_start(cursor.deep_view()),
    {
        let pending: Vec<VideoRow> = Vec::new();
        assert(pending.deep_view() == Seq::<VideoRowModel>::empty());
        CatalogSync { cursor, page: 1, total_pages: None, pending }
    }

    /// Number of the page to fetch, counted from one.
    pub fn page(&self) -> (page: u32)
        ensures
            page == self@.page,
    {
        self.page
    }

    /// Offset at which the page to fetch begins.
    pub fn offset(&self) -> (offset: u32)
        ensures
            offset == spec_page_offset(self@.page),
    {
        proof {
            use_type_invariant(self);
        }
        VIDEOS_PER_PAGE * (self.page - 1)
    }

    /// Takes the outcome of the fetch and says what to do next.
    pub fn step(self, event: SyncEvent) -> (next: SyncStep)
        ensures
            next@ == spec_step(self@, event@),
    {
        proof {
            use_type_invariant(&self);
        }
        let CatalogSync { cursor, page, total_pages: known, pending } = self;
        match event {
            SyncEvent::Failed(error) => SyncStep::Abort(error),
            SyncEvent::Page(response) => {
                let total = match known {
                    Some(total) => total,
                    None => total_pages(response.count),
                };
                if page > total {
                    return SyncStep::Persist(pending);
                }
                let mut pending = pending;
                let hit = collect_new_videos(&cursor, &response.videos, &mut pending);
                if hit || page == total {
                    SyncStep::Persist(pending)
                } else {
                    SyncStep::Fetch(
                        CatalogSync { cursor, page: page + 1, total_pages: Some(total), pending },
                    )
                }
            },
        }
    }
}

/// What a whole pass comes to.
pub struct PassModel {
    /// Number of pages that were fetched.
    pub fetched: int,
    /// The rows to store, in the catalog's order, or the failure.
    pub outcome: Result<Seq<VideoRowModel>, SyncError>,
}

/// The pass that `state` runs to when every fetch is answered from `feed`:
/// page `n` is `feed[n - 1]`, and a page beyond the feed cannot be had.
pub open spec fn spec_run(state: CatalogSyncModel, feed: Seq<PlayerResponseModel>) -> PassModel
    decreases feed.len() - state.page + 1,
{
    if state.page < 1 || state.page > feed.len() {
        PassModel { fetched: 0, outcome: Err(SyncError::Fetch) }
    } else {
        match spec_step(state, SyncEventModel::Page(feed[state.page - 1])) {
            SyncStepModel::Fetch(next) => {
                let rest = spec_run(next, feed);
                PassModel { fetched: rest.fetched + 1, outcome: rest.outcome }
            },
            SyncStepModel::Persist(rows) => PassModel { fetched: 1, outcome: Ok(rows) },
            SyncStepModel::Abort(error) => PassModel { fetched: 1, outcome: Err(error) },
        }
    }
}

/// The videos of `pages`, page after page.
pub open spec fn all_videos(pages: Seq<PlayerResponseModel>) -> Seq<VideoModel>
    decreases pages.len(),
{
    if pages.len() == 0 {
        Seq::empty()
    } else {
        pages[0].videos + all_videos(pages.drop_first())
    }
}

/// Index of the first of `pages` that holds the cursor, or their number
/// where none does.
pub open spec fn first_hit_page(pages: Seq<PlayerResponseModel>, cursor: Option<Seq<char>>) -> int
    decreases pages.len(),
{
    if pages.len() == 0 {
        0
    } else if holds_cursor(pages[0].videos, cursor) {
        0
    } else {
        1 + first_hit_page(pages.drop_first(), cursor)
    }
}

/// The pages that a pass over `feed` has to read where it never meets the
/// cursor: as many as the first page declares, or all there are if the feed
/// ends before.
pub open spec fn wanted_pages(feed: Seq<PlayerResponseModel>) -> Seq<PlayerResponseModel> {
    if feed.len() == 0 {
        feed
    } else if spec_total_pages(feed[0].count as int) <= feed.len() {
        feed.take(spec_total_pages(feed[0].count as int))
    } else {
        feed
    }
}

/// What a pass with `cursor` over `feed` comes to, said at once.
///
/// The pass reads the wanted pages in order and stops behind the first that
/// holds the cursor. It fails where it needs a page that the feed lacks.
/// Otherwise it stores the videos of the wanted pages that precede the
/// cursor, all of them where the cursor does not occur.
pub open spec fn spec_pass(cursor: Option<Seq<char>>, feed: Seq<PlayerResponseModel>) -> PassModel {
    let wanted = wanted_pages(feed);
    let stop = first_hit_page(wanted, cursor);
    if feed.len() == 0 {
        PassModel { fetched: 0, outcome: Err(SyncError::Fetch) }
    } else if wanted.len() == 0 {
        PassModel { fetched: 1, outcome: Ok(Seq::empty()) }
    } else if stop < wanted.len() {
        PassModel {
            fetched: stop + 1,
            outcome: Ok(rows_of_videos(fresh_videos(all_videos(wanted), cursor))),
        }
    } else if feed.len() < spec_total_pages(feed[0].count as int) {
        PassModel { fetched: feed.len() as int, outcome: Err(SyncError::Fetch) }
    } else {
        PassModel {
            fetched: wanted.len() as int,
            outcome: Ok(rows_of_videos(fresh_videos(all_videos(wanted), cursor))),
        }
    }
}

/// The rows of two listings, one after the other, are the rows of the
/// listings joined.
pub proof fn lemma_rows_of_joined(first: Seq<VideoModel>, second: Seq<VideoModel>)
    ensures
        rows_of_videos(first + second) == rows_of_videos(first) + rows_of_videos(second),
{
    assert(rows_of_videos(first + second) =~= rows_of_videos(first) + rows_of_videos(second));
}

/// Where the first of two listings holds the cursor, the second adds nothing
/// new; where it does not, all of it is new and the search goes on in the
/// second.
pub proof fn lemma_fresh_of_joined(
    first: Seq<VideoModel>,
    second: Seq<VideoModel>,
    cursor: Option<Seq<char>>,
)
    ensures
        holds_cursor(first + second, cursor) == (holds_cursor(first, cursor) || holds_cursor(
            second,
            cursor,
        )),
        holds_cursor(first, cursor) ==> fresh_videos(first + second, cursor) == fresh_videos(
            first,
            cursor,
        ),
        !holds_cursor(first, cursor) ==> fresh_videos(first + second, cursor) == first
            + fresh_videos(second, cursor),
{
    let joined = first + second;
    match cursor {
        None => {},
        Some(id) => {
            lemma_first_hit(first, id);
            lemma_first_hit(second, id);
            let a = first_hit(first, id);
            let b = first_hit(second, id);
            if a < first.len() {
                assert forall|j: int| 0 <= j < a implies (#[trigger] joined[j]).id != id by {
                    assert(joined[j] == first[j]);
                }
                assert(joined[a] == first[a]);
                lemma_first_hit_unique(joined, id, a);
                assert(joined.take(a) =~= first.take(a));
            } else {
                assert forall|j: int| 0 <= j < first.len() + b implies (#[trigger] joined[j]).id
                    != id by {
                    if j < first.len() {
                        assert(joined[j] == first[j]);
                    } else {
                        assert(joined[j] == second[j - first.len()]);
                    }
                }
                if b < second.len() {
                    assert(joined[first.len() + b] == second[b]);
                }
                lemma_first_hit_unique(joined, id, first.len() + b);
                assert(joined.take(first.len() + b) =~= first + second.take(b));
            }
        },
    }
}

proof fn lemma_run_from(state: CatalogSyncModel, feed: Seq<PlayerResponseModel>)
    requires
        feed.len() >= 1,
        1 <= state.page <= spec_total_pages(feed[0].count as int),
        state.page - 1 <= wanted_pages(feed).len(),
        state.page == 1 ==> state.total_pages is None,
        state.page > 1 ==> state.total_pages == Some(spec_total_pages(feed[0].count as int)),
    ensures
        ({
            let wanted = wanted_pages(feed);
            let rest = wanted.skip(state.page - 1);
            let stop = first_hit_page(rest, state.cursor);
            let run = spec_run(state, feed);
            &&& run.fetched == if stop < rest.len() {
                stop + 1
            } else {
                rest.len() as int
            }
            &&& run.outcome == if stop < rest.len() || spec_total_pages(feed[0].count as int)
                <= feed.len() {
                Ok::<Seq<VideoRowModel>, SyncError>(
                    state.pending + rows_of_videos(
                        fresh_videos(all_videos(rest), state.cursor),
                    ),
                )
            } else {
                Err(SyncError::Fetch)
            }
        }),
    decreases wanted_pages(feed).len() - state.page + 1,
{
    let total = spec_total_pages(feed[0].count as int);
    let wanted = wanted_pages(feed);
    let rest = wanted.skip(state.page - 1);
    let run = spec_run(state, feed);
    if state.page - 1 == wanted.len() {
        assert(rest.len() == 0);
        assert(state.page > feed.len());
    } else {
        let response = feed[state.page - 1];
        assert(rest[0] == response);
        let later = rest.drop_first();
        assert(later == wanted.skip(state.page));
        let new_here = rows_of_videos(fresh_videos(response.videos, state.cursor));
        let new_later = rows_of_videos(fresh_videos(all_videos(later), state.cursor));
        let gathered = state.pending + new_here;
        assert(all_videos(rest) == response.videos + all_videos(later));
        lemma_fresh_of_joined(response.videos, all_videos(later), state.cursor);
        lemma_fresh_of_joined(response.videos, Seq::empty(), state.cursor);
        assert(response.videos + Seq::<VideoModel>::empty() == response.videos);
        if holds_cursor(response.videos, state.cursor) {
            assert(run == PassModel { fetched: 1, outcome: Ok(gathered) });
        } else if state.page == total {
            assert(later.len() == 0);
            assert(all_videos(later) == Seq::<VideoModel>::empty());
            assert(first_hit_page(later, state.cursor) == 0);
            assert(run == PassModel { fetched: 1, outcome: Ok(gathered) });
        } else {
            let next = CatalogSyncModel {
                cursor: state.cursor,
                page: state.page + 1,
                total_pages: Some(total),
                pending: gathered,
            };
            lemma_run_from(next, feed);
            assert(run.outcome == spec_run(next, feed).outcome);
            assert(run.fetched == spec_run(next, feed).fetched + 1);
            assert(fresh_videos(response.videos, state.cursor) == response.videos);
            lemma_rows_of_joined(response.videos, fresh_videos(all_videos(later), state.cursor));
            assert(state.pending + (new_here + new_later) =~= gathered + new_later);
        }
    }
}

/// Stepping a pass page by page from its start comes to what `spec_pass`
/// says at once.
pub proof fn lemma_run_is_pass(cursor: Option<Seq<char>>, feed: Seq<PlayerResponseModel>)
    ensures
        spec_run(spec_start(cursor), feed) == spec_pass(cursor, feed),
{
    if feed.len() > 0 && spec_total_pages(feed[0].count as int) > 0 {
        let start = spec_start(cursor);
        lemma_run_from(start, feed);
        assert(wanted_pages(feed).skip(0) == wanted_pages(feed));
        let wanted = wanted_pages(feed);
        assert(start.pending + rows_of_videos(fresh_videos(all_videos(wanted), cursor))
            == rows_of_videos(fresh_videos(all_videos(wanted), cursor)));
    }
}

/// The videos of two runs of pages, one after the other, are the videos of
/// the runs joined.
pub proof fn lemma_all_videos_of_joined(
    first: Seq<PlayerResponseModel>,
    second: Seq<PlayerResponseModel>,
)
    ensures
        all_videos(first + second) == all_videos(first) + all_videos(second),
    decreases first.len(),
{
    if first.len() == 0 {
        assert(first + second == second);
        assert(all_videos(first) + all_videos(second) == all_videos(second));
    } else {
        lemma_all_videos_of_joined(first.drop_first(), second);
        assert((first + second).drop_first() == first.drop_first() + second);
        assert((first[0].videos + all_videos(first.drop_first())) + all_videos(second)
            == first[0].videos + (all_videos(first.drop_first()) + all_videos(second)));
    }
}

/// `first_hit_page` is a place among the pages or their end, no earlier page
/// holds the cursor, and the page at the place does. The pages hold the
/// cursor exactly where their videos, taken together, do.
pub proof fn lemma_first_hit_page(pages: Seq<PlayerResponseModel>, cursor: Option<Seq<char>>)
    ensures
        0 <= first_hit_page(pages, cursor) <= pages.len(),
        forall|p: int|
            0 <= p < first_hit_page(pages, cursor) ==> !holds_cursor(
                (#[trigger] pages[p]).videos,
                cursor,
            ),
        first_hit_page(pages, cursor) < pages.len() ==> holds_cursor(
            pages[first_hit_page(pages, cursor)].videos,
            cursor,
        ),
        first_hit_page(pages, cursor) < pages.len() <==> holds_cursor(all_videos(pages), cursor),
    decreases pages.len(),
{
    if pages.len() > 0 {
        let later = pages.drop_first();
        lemma_first_hit_page(later, cursor);
        lemma_fresh_of_joined(pages[0].videos, all_videos(later), cursor);
        if !holds_cursor(pages[0].videos, cursor) {
            assert forall|p: int| 0 <= p < first_hit_page(pages, cursor) implies !holds_cursor(
                (#[trigger] pages[p]).videos,
                cursor,
            ) by {
                if p > 0 {
                    assert(pages[p] == later[p - 1]);
                }
            }
            if first_hit_page(later, cursor) < later.len() {
                assert(pages[first_hit_page(pages, cursor)] == later[first_hit_page(
                    later,
                    cursor,
                )]);
            }
        }
    } else if let Some(id) = cursor {
        assert(first_hit(all_videos(pages), id) == 0);
    }
}

/// The place that `lemma_first_hit_page` describes is the only one.
pub proof fn lemma_first_hit_page_unique(
    pages: Seq<PlayerResponseModel>,
    cursor: Option<Seq<char>>,
    at: int,
)
    requires
        0 <= at <= pages.len(),
        forall|p: int| 0 <= p < at ==> !holds_cursor((#[trigger] pages[p]).videos, cursor),
        at < pages.len() ==> holds_cursor(pages[at].videos, cursor),
    ensures
        first_hit_page(pages, cursor) == at,
{
    lemma_first_hit_page(pages, cursor);
    let found = first_hit_page(pages, cursor);
    if found < at {
        assert(!holds_cursor(pages[found].videos, cursor));
    } else if at < found {
        assert(!holds_cursor(pages[at].videos, cursor));
    }
}

/// A pass without a cursor over a feed that has every page it declares
/// reads all of them and stores every video, in the catalog's order.
pub proof fn lemma_pass_without_cursor(feed: Seq<PlayerResponseModel>)
    requires
        feed.len() >= 1,
        spec_total_pages(feed[0].count as int) <= feed.len(),
    ensures
        spec_pass(None, feed).outcome == Ok::<Seq<VideoRowModel>, SyncError>(
            rows_of_videos(all_videos(feed.take(spec_total_pages(feed[0].count as int)))),
        ),
        spec_pass(None, feed).fetched == if feed[0].count == 0 {
            1
        } else {
            spec_total_pages(feed[0].count as int)
        },
{
    let wanted = wanted_pages(feed);
    lemma_first_hit_page_unique(wanted, None, wanted.len() as int);
    if wanted.len() == 0 {
        assert(all_videos(wanted) == Seq::<VideoModel>::empty());
        assert(rows_of_videos(all_videos(wanted)) == Seq::<VideoRowModel>::empty());
    }
}

/// A pass whose cursor first occurs on a wanted page reads the pages up to
/// that one and no further, and stores the videos that precede the cursor:
/// every video of the earlier pages, and those of that page before the
/// cursor.
pub proof fn lemma_pass_stops_at_cursor(
    cursor: Seq<char>,
    feed: Seq<PlayerResponseModel>,
    page: int,
)
    requires
        0 <= page < wanted_pages(feed).len(),
        holds_cursor(feed[page].videos, Some(cursor)),
        forall|p: int| 0 <= p < page ==> !holds_cursor((#[trigger] feed[p]).videos, Some(cursor)),
    ensures
        spec_pass(Some(cursor), feed) == (PassModel {
            fetched: page + 1,
            outcome: Ok(
                rows_of_videos(
                    all_videos(feed.take(page)) + feed[page].videos.take(
                        first_hit(feed[page].videos, cursor),
                    ),
                ),
            ),
        }),
{
    let wanted = wanted_pages(feed);
    let known = Some(cursor);
    assert forall|p: int| 0 <= p < page implies !holds_cursor(
        (#[trigger] wanted[p]).videos,
        known,
    ) by {
        assert(wanted[p] == feed[p]);
    }
    assert(wanted[page] == feed[page]);
    lemma_first_hit_page_unique(wanted, known, page);
    let before = wanted.take(page);
    let behind = wanted.skip(page + 1);
    let from = seq![wanted[page]] + behind;
    assert(before == feed.take(page));
    assert(wanted == before + from);
    lemma_all_videos_of_joined(before, from);
    assert forall|p: int| 0 <= p < before.len() implies !holds_cursor(
        (#[trigger] before[p]).videos,
        known,
    ) by {
        assert(before[p] == feed[p]);
    }
    lemma_first_hit_page_unique(before, known, before.len() as int);
    lemma_first_hit_page(before, known);
    assert(from.drop_first() == behind);
    assert(all_videos(from) == feed[page].videos + all_videos(behind));
    lemma_fresh_of_joined(all_videos(before), all_videos(from), known);
    lemma_fresh_of_joined(feed[page].videos, all_videos(behind), known);
}

/// Runs a whole pass over pages that are at hand: page `n` of the catalog is
/// `feed[n - 1]`, and a page that the feed lacks counts as a failed fetch.
///
/// Returns the rows to store, in the catalog's order, or `None` where
/// nothing is new.
pub fn get_new_videos(
    latest_bc_video_id: Option<String>,
    feed: &Vec<PlayerResponse>,
) -> (found: Result<Option<Vec<VideoRow>>, SyncError>)
    ensures
        match spec_pass(latest_bc_video_id.deep_view(), feed.deep_view()).outcome {
            Ok(rows) => if rows.len() == 0 {
                found == Ok::<Option<Vec<VideoRow>>, SyncError>(None)
            } else {
                found matches Ok(Some(new_videos)) && new_videos.deep_view() == rows
            },
            Err(error) => found == Err::<Option<Vec<VideoRow>>, SyncError>(error),
        },
{
    let ghost cursor = latest_bc_video_id.deep_view();
    let ghost pages = feed.deep_view();
    proof {
        lemma_run_is_pass(cursor, pages);
    }
    let mut state = CatalogSync::start(latest_bc_video_id);
    loop
        invariant
            pages == feed.deep_view(),
            cursor == latest_bc_video_id.deep_view(),
            spec_run(state@, pages).outcome == spec_pass(cursor, pages).outcome,
        decreases feed.len() - state@.page + 1,
    {
        proof {
            use_type_invariant(&state);
        }
        let page = state.page();
        if page as usize > feed.len() {
            return Err(SyncError::Fetch);
        }
        let response = &feed[page as usize - 1];
        assert(pages[page - 1] == response@);
        match state.step(SyncEvent::Page(response)) {
            SyncStep::Fetch(next) => {
                state = next;
            },
            SyncStep::Persist(rows) => {
                return Ok(
                    if rows.len() == 0 {
                        None
                    } else {
                        Some(rows)
                    },
                );
            },
            SyncStep::Abort(error) => {
                return Err(error);
            },
        }
    }
}

} // verus!
