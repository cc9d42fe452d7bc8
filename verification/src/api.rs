//! The rules of the read interface over the mirror.

use crate::brightcove::{video_of_row, PlayerResponse, PlayerResponseModel, Video, VideoModel};
use crate::db::{VideoRow, VideoRowModel};
use vstd::prelude::*;

verus! {

/// Largest number of videos that one listing returns, and the number it
/// returns where none is asked for.
pub const MAX_LISTED: u32 = 20;

/// The part of the table that a listing covers.
#[derive(Debug, Clone, Copy, PartialEq, Eq, Structural)]
pub struct ListWindow {
    pub limit: u32,
    pub offset: u32,
}

/// The window that a request for `limit` videos from `offset` is served
/// with: at most twenty videos, twenty where no number is given, from the
/// start where no offset is given.
pub open spec fn spec_list_window(limit: Option<u32>, offset: Option<u32>) -> ListWindow {
    ListWindow {
        limit: match limit {
            Some(asked) => if asked > MAX_LISTED {
                MAX_LISTED
            } else {
                asked
            },
            None => MAX_LISTED,
        },
        offset: match offset {
            Some(asked) => asked,
            None => 0,
        },
    }
}

/// Computes the window that a listing request is served with.
pub fn list_window(limit: Option<u32>, offset: Option<u32>) -> (window: ListWindow)
    ensures
        window == spec_list_window(limit, offset),
        window.limit <= MAX_LISTED,
{
    let limit = match limit {
        Some(asked) => if asked > MAX_LISTED {
            MAX_LISTED
        } else {
            asked
        },
        None => MAX_LISTED,
    };
    let offset = match offset {
        Some(asked) => asked,
        None => 0,
    };
    ListWindow { limit, offset }
}

/// The videos that `rows` are served as, in the same order.
pub open spec fn videos_of_rows(rows: Seq<VideoRowModel>) -> Seq<VideoModel> {
    rows.map_values(|row: VideoRowModel| video_of_row(row))
}

/// Puts a listing together: the number of videos in the table, and the rows
/// of the asked window as the videos they are served as.
pub fn player_response(count: u32, video_rows: &Vec<VideoRow>) -> (response: PlayerResponse)
    ensures
        response@ == (PlayerResponseModel {
            count,
            videos: videos_of_rows(video_rows.deep_view()),
        }),
{
    let ghost rows = video_rows.deep_view();
    let mut videos: Vec<Video> = Vec::new();
    let mut i: usize = 0;
    assert(videos.deep_view() == videos_of_rows(rows.take(0)));
    while i < video_rows.len()
        invariant
            i <= video_rows.len(),
            rows == video_rows.deep_view(),
            videos.deep_view() == videos_of_rows(rows.take(i as int)),
        decreases video_rows.len() - i,
    {
        let ghost served = videos.deep_view();
        let video = Video::from(&video_rows[i]);
        videos.push(video);
        proof {
            assert(videos.deep_view() == served.push(video_of_row(rows[i as int])));
            assert(rows.take(i + 1) == rows.take(i as int).push(rows[i as int]));
            assert(videos_of_rows(rows.take(i + 1)) == videos_of_rows(rows.take(i as int)).push(
                video_of_row(rows[i as int]),
            ));
        }
        i += 1;
    }
    assert(rows.take(i as int) == rows);
    PlayerResponse { count, videos }
}

} // verus!
