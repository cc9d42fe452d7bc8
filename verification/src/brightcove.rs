//! Shapes of the remote catalog and the arithmetic of its pagination.

use crate::db::{VideoRow, VideoRowModel};
use vstd::prelude::*;
use vstd::std_specs::convert::FromSpecImpl;

pub mod analytics;

verus! {

/// Answer of the credential endpoint to a client-credentials exchange.
#[derive(Debug, PartialEq)]
pub struct AccessTokenResponse {
    pub access_token: String,
    pub token_type: String,
    pub expires_in: i64,
}

/// Mathematical value of an [`AccessTokenResponse`].
pub struct AccessTokenResponseModel {
    pub access_token: Seq<char>,
    pub token_type: Seq<char>,
    pub expires_in: int,
}

impl View for AccessTokenResponse {
    type V = AccessTokenResponseModel;

    open spec fn view(&self) -> AccessTokenResponseModel {
        AccessTokenResponseModel {
            access_token: self.access_token@,
            token_type: self.token_type@,
            expires_in: self.expires_in as int,
        }
    }
}

impl Clone for AccessTokenResponse {
    fn clone(&self) -> (copy: AccessTokenResponse)
        ensures
            copy@ == self@,
    {
        AccessTokenResponse {
            access_token: self.access_token.clone(),
            token_type: self.token_type.clone(),
            expires_in: self.expires_in,
        }
    }
}

/// The free-form fields that the catalog attaches to a video.
#[derive(Debug, PartialEq)]
pub struct VideoCustomFields {
    pub numero_corsa: String,
    pub data: String,
    pub tipologia: Option<String>,
    pub cavalli: Option<String>,
    pub fantini: Option<String>,
    pub primo: Option<String>,
    pub secondo: Option<String>,
    pub terzo: Option<String>,
    pub ippodromo: String,
}

/// Mathematical value of a [`VideoCustomFields`].
pub struct VideoCustomFieldsModel {
    pub numero_corsa: Seq<char>,
    pub data: Seq<char>,
    pub tipologia: Option<Seq<char>>,
    pub cavalli: Option<Seq<char>>,
    pub fantini: Option<Seq<char>>,
    pub primo: Option<Seq<char>>,
    pub secondo: Option<Seq<char>>,
    pub terzo: Option<Seq<char>>,
    pub ippodromo: Seq<char>,
}

impl View for VideoCustomFields {
    type V = VideoCustomFieldsModel;

    open spec fn view(&self) -> VideoCustomFieldsModel {
        VideoCustomFieldsModel {
            numero_corsa: self.numero_corsa@,
            data: self.data@,
            tipologia: self.tipologia.deep_view(),
            cavalli: self.cavalli.deep_view(),
            fantini: self.fantini.deep_view(),
            primo: self.primo.deep_view(),
            secondo: self.secondo.deep_view(),
            terzo: self.terzo.deep_view(),
            ippodromo: self.ippodromo@,
        }
    }
}

impl Clone for VideoCustomFields {
    fn clone(&self) -> (copy: VideoCustomFields)
        ensures
            copy@ == self@,
    {
        VideoCustomFields {
            numero_corsa: self.numero_corsa.clone(),
            data: self.data.clone(),
            tipologia: self.tipologia.clone(),
            cavalli: self.cavalli.clone(),
            fantini: self.fantini.clone(),
            primo: self.primo.clone(),
            secondo: self.secondo.clone(),
            terzo: self.terzo.clone(),
            ippodromo: self.ippodromo.clone(),
        }
    }
}

/// One video as the catalog lists it.
#[derive(Debug, PartialEq)]
pub struct Video {
    pub id: String,
    pub name: String,
    pub thumbnail: String,
    pub custom_fields: VideoCustomFields,
    pub video_views: Option<u32>,
}

/// Mathematical value of a [`Video`].
pub struct VideoModel {
    pub id: Seq<char>,
    pub name: Seq<char>,
    pub thumbnail: Seq<char>,
    pub custom_fields: VideoCustomFieldsModel,
    pub video_views: Option<u32>,
}

impl View for Video {
    type V = VideoModel;

    open spec fn view(&self) -> VideoModel {
        VideoModel {
            id: self.id@,
            name: self.name@,
            thumbnail: self.thumbnail@,
            custom_fields: self.custom_fields@,
            video_views: self.video_views,
        }
    }
}

impl DeepView for Video {
    type V = VideoModel;

    open spec fn deep_view(&self) -> VideoModel {
        self@
    }
}

impl Clone for Video {
    fn clone(&self) -> (copy: Video)
        ensures
            copy@ == self@,
    {
        Video {
            id: self.id.clone(),
            name: self.name.clone(),
            thumbnail: self.thumbnail.clone(),
            custom_fields: self.custom_fields.clone(),
            video_views: self.video_views,
        }
    }
}

/// The video that a stored row is served as: every catalog field of the row,
/// and the row's view count as the bundled count.
pub open spec fn video_of_row(row: VideoRowModel) -> VideoModel {
    VideoModel {
        id: row.bc_video_id,
        name: row.name,
        thumbnail: row.thumbnail,
        custom_fields: VideoCustomFieldsModel {
            numero_corsa: row.numero_corsa,
            data: row.data,
            tipologia: row.tipologia,
            cavalli: row.cavalli,
            fantini: row.fantini,
            primo: row.primo,
            secondo: row.secondo,
            terzo: row.terzo,
            ippodromo: row.ippodromo,
        },
        video_views: Some(row.video_views),
    }
}

impl From<&VideoRow> for Video {
    fn from(video: &VideoRow) -> (ret: Video)
        ensures
            ret@ == video_of_row(video@),
    {
        Video {
            id: video.bc_video_id.clone(),
            name: video.name.clone(),
            thumbnail: video.thumbnail.clone(),
            custom_fields: VideoCustomFields {
                numero_corsa: video.numero_corsa.clone(),
                data: video.data.clone(),
                tipologia: video.tipologia.clone(),
                cavalli: video.cavalli.clone(),
                fantini: video.fantini.clone(),
                primo: video.primo.clone(),
                secondo: video.secondo.clone(),
                terzo: video.terzo.clone(),
                ippodromo: video.ippodromo.clone(),
            },
            video_views: Some(video.video_views),
        }
    }
}

impl FromSpecImpl<&VideoRow> for Video {
    open spec fn obeys_from_spec() -> bool {
        true
    }

    open spec fn from_spec(video: &VideoRow) -> Video {
        Video {
            id: video.bc_video_id,
            name: video.name,
            thumbnail: video.thumbnail,
            custom_fields: VideoCustomFields {
                numero_corsa: video.numero_corsa,
                data: video.data,
                tipologia: video.tipologia,
                cavalli: video.cavalli,
                fantini: video.fantini,
                primo: video.primo,
                secondo: video.secondo,
                terzo: video.terzo,
                ippodromo: video.ippodromo,
            },
            video_views: Some(video.video_views),
        }
    }
}

impl From<VideoRow> for Video {
    fn from(video: VideoRow) -> (ret: Video)
        ensures
            ret@ == video_of_row(video@),
    {
        Video {
            id: video.bc_video_id,
            name: video.name,
            thumbnail: video.thumbnail,
            custom_fields: VideoCustomFields {
                numero_corsa: video.numero_corsa,
                data: video.data,
                tipologia: video.tipologia,
                cavalli: video.cavalli,
                fantini: video.fantini,
                primo: video.primo,
                secondo: video.secondo,
                terzo: video.terzo,
                ippodromo: video.ippodromo,
            },
            video_views: Some(video.video_views),
        }
    }
}

impl FromSpecImpl<VideoRow> for Video {
    open spec fn obeys_from_spec() -> bool {
        true
    }

    open spec fn from_spec(video: VideoRow) -> Video {
        Video {
            id: video.bc_video_id,
            name: video.name,
            thumbnail: video.thumbnail,
            custom_fields: VideoCustomFields {
                numero_corsa: video.numero_corsa,
                data: video.data,
                tipologia: video.tipologia,
                cavalli: video.cavalli,
                fantini: video.fantini,
                primo: video.primo,
                secondo: video.secondo,
                terzo: video.terzo,
                ippodromo: video.ippodromo,
            },
            video_views: Some(video.video_views),
        }
    }
}

/// One page of the catalog: the size of the whole catalog and the videos of
/// this page, newest first.
#[derive(Debug, PartialEq)]
pub struct PlayerResponse {
    pub count: u32,
    pub videos: Vec<Video>,
}

/// Mathematical value of a [`PlayerResponse`].
pub struct PlayerResponseModel {
    pub count: u32,
    pub videos: Seq<VideoModel>,
}

impl View for PlayerResponse {
    type V = PlayerResponseModel;

    open spec fn view(&self) -> PlayerResponseModel {
        PlayerResponseModel { count: self.count, videos: self.videos.deep_view() }
    }
}

impl DeepView for PlayerResponse {
    type V = PlayerResponseModel;

    open spec fn deep_view(&self) -> PlayerResponseModel {
        self@
    }
}

/// Number of videos the catalog endpoint is asked for per page.
pub const VIDEOS_PER_PAGE: u32 = 25;

/// Number of pages needed to list `count` videos: `count / 25`, rounded up.
pub open spec fn spec_total_pages(count: int) -> int {
    (count + VIDEOS_PER_PAGE - 1) / (VIDEOS_PER_PAGE as int)
}

/// Offset of the first video of the 1-based page `page`.
pub open spec fn spec_page_offset(page: int) -> int {
    VIDEOS_PER_PAGE * (page - 1)
}

/// Computes the number of pages that a catalog of `count` videos spans.
pub fn total_pages(count: u32) -> (pages: u32)
    ensures
        pages == spec_total_pages(count as int),
        pages * VIDEOS_PER_PAGE >= count,
        count > 0 ==> (pages - 1) * VIDEOS_PER_PAGE < count,
        count == 0 <==> pages == 0,
{
    let whole: u32 = count / VIDEOS_PER_PAGE;
    if count % VIDEOS_PER_PAGE == 0 {
        whole
    } else {
        whole + 1
    }
}

/// Computes the offset to request for the 1-based page `page`, or `None`
/// where no such page can exist: page zero, or an offset beyond `u32`.
pub fn page_offset(page: u32) -> (offset: Option<u32>)
    ensures
        offset is Some <==> 1 <= page && spec_page_offset(page as int) <= u32::MAX,
        offset is Some ==> offset->0 == spec_page_offset(page as int),
{
    if page == 0 {
        None
    } else {
        VIDEOS_PER_PAGE.checked_mul(page - 1)
    }
}

} // verus!
