//! Shapes of the remote view-count report.

use crate::error::SyncError;
use vstd::prelude::*;

verus! {

/// One entry of the view-count report. The remote side is known to send
/// entries without a video id.
#[derive(Debug, PartialEq)]
pub struct Video {
    pub video: Option<String>,
    pub video_view: u32,
}

/// Mathematical value of a report entry.
pub struct VideoModel {
    pub video: Option<Seq<char>>,
    pub video_view: u32,
}

impl View for Video {
    type V = VideoModel;

    open spec fn view(&self) -> VideoModel {
        VideoModel { video: self.video.deep_view(), video_view: self.video_view }
    }
}

impl DeepView for Video {
    type V = VideoModel;

    open spec fn deep_view(&self) -> VideoModel {
        self@
    }
}

impl Clone for Video {
    fn clone(&self) -> (copy: Video)
        ensures
            copy@ == self@,
    {
        Video { video: self.video.clone(), video_view: self.video_view }
    }
}

/// The view-count report: the number of entries it declares, and the entries.
#[derive(Debug, PartialEq)]
pub struct VideosResponse {
    pub item_count: u32,
    pub items: Vec<Video>,
}

/// Mathematical value of a [`VideosResponse`].
pub struct VideosResponseModel {
    pub item_count: u32,
    pub items: Seq<VideoModel>,
}

impl View for VideosResponse {
    type V = VideosResponseModel;

    open spec fn view(&self) -> VideosResponseModel {
        VideosResponseModel { item_count: self.item_count, items: self.items.deep_view() }
    }
}

/// A view count to write to the table: the id of a video and its count.
#[derive(Debug, PartialEq)]
pub struct ViewUpdate {
    pub bc_video_id: String,
    pub views: u32,
}

/// Mathematical value of a [`ViewUpdate`].
pub struct ViewUpdateModel {
    pub bc_video_id: Seq<char>,
    pub views: u32,
}

impl View for ViewUpdate {
    type V = ViewUpdateModel;

    open spec fn view(&self) -> ViewUpdateModel {
        ViewUpdateModel { bc_video_id: self.bc_video_id@, views: self.views }
    }
}

impl DeepView for ViewUpdate {
    type V = ViewUpdateModel;

    open spec fn deep_view(&self) -> ViewUpdateModel {
        self@
    }
}

/// The updates that a report asks for: one for each entry that names a
/// video, in the report's order, with the entry's id and count. Entries
/// without an id ask for nothing.
pub open spec fn spec_view_updates(items: Seq<VideoModel>) -> Seq<ViewUpdateModel> {
    items.filter(|entry: VideoModel| entry.video is Some).map_values(
        |entry: VideoModel|
            ViewUpdateModel { bc_video_id: entry.video->0, views: entry.video_view },
    )
}

/// The updates of a report that grew by one entry: one more where the entry
/// names a video, the same where it does not.
pub proof fn lemma_view_updates_of_longer(items: Seq<VideoModel>, entry: VideoModel)
    ensures
        spec_view_updates(items.push(entry)) == match entry.video {
            Some(id) => spec_view_updates(items).push(
                ViewUpdateModel { bc_video_id: id, views: entry.video_view },
            ),
            None => spec_view_updates(items),
        },
        spec_view_updates(Seq::empty()) == Seq::<ViewUpdateModel>::empty(),
{
    reveal(Seq::filter);
    let named = |entry: VideoModel| entry.video is Some;
    let longer = items.push(entry);
    assert(longer.drop_last() == items);
    assert(longer.filter(named) == if named(entry) {
        items.filter(named).push(entry)
    } else {
        items.filter(named)
    });
    match entry.video {
        Some(id) => {
            assert(spec_view_updates(longer) =~= spec_view_updates(items).push(
                ViewUpdateModel { bc_video_id: id, views: entry.video_view },
            ));
        },
        None => {},
    }
    assert(Seq::<VideoModel>::empty().filter(named) =~= Seq::empty());
    assert(spec_view_updates(Seq::empty()) =~= Seq::<ViewUpdateModel>::empty());
}

/// Reads off a report the updates it asks for, dropping the entries that
/// name no video.
pub fn view_updates(report: &VideosResponse) -> (updates: Vec<ViewUpdate>)
    ensures
        updates.deep_view() == spec_view_updates(report@.items),
{
    let ghost items = report@.items;
    let mut updates: Vec<ViewUpdate> = Vec::new();
    let mut i: usize = 0;
    proof {
        lemma_view_updates_of_longer(Seq::empty(), items[0]);
        assert(items.take(0) == Seq::<VideoModel>::empty());
        assert(updates.deep_view() == Seq::<ViewUpdateModel>::empty());
    }
    while i < report.items.len()
        invariant
            i <= report.items.len(),
            items == report@.items,
            updates.deep_view() == spec_view_updates(items.take(i as int)),
        decreases report.items.len() - i,
    {
        let entry = &report.items[i];
        let ghost asked = updates.deep_view();
        proof {
            assert(items.take(i + 1) == items.take(i as int).push(entry@));
            lemma_view_updates_of_longer(items.take(i as int), entry@);
        }
        match &entry.video {
            Some(id) => {
                let update = ViewUpdate { bc_video_id: id.clone(), views: entry.video_view };
                updates.push(update);
                assert(updates.deep_view() == asked.push(update@));
            },
            None => {},
        }
        i += 1;
    }
    assert(items.take(i as int) == items);
    updates
}

/// Status with which the endpoint answers a request that it has served.
pub const STATUS_OK: u16 = 200;

/// Judges the status with which the endpoint answered the request for the
/// report: anything but success is a failed fetch.
pub fn check_status(status: u16) -> (checked: Result<(), SyncError>)
    ensures
        status == STATUS_OK ==> checked == Ok::<(), SyncError>(()),
        status != STATUS_OK ==> checked == Err::<(), SyncError>(SyncError::Fetch),
{
    if status == STATUS_OK {
        Ok(())
    } else {
        Err(SyncError::Fetch)
    }
}

} // verus!
