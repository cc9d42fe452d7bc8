//! The local video table: its rows, and the table held in memory.

use crate::brightcove::{video_of_row, PlayerResponse, PlayerResponseModel, Video, VideoModel};
use crate::text_order::{lemma_text_order, text_before, text_less};
use vstd::prelude::*;
use vstd::std_specs::convert::FromSpecImpl;

verus! {

/// One row of the local video table.
#[derive(Debug, PartialEq)]
pub struct VideoRow {
    pub name: String,
    pub thumbnail: String,
    pub numero_corsa: String,
    pub data: String,
    pub tipologia: Option<String>,
    pub cavalli: Option<String>,
    pub fantini: Option<String>,
    pub primo: Option<String>,
    pub secondo: Option<String>,
    pub terzo: Option<String>,
    pub ippodromo: String,
    pub video_views: u32,
    pub bc_video_id: String,
}

/// Mathematical value of a [`VideoRow`].
pub struct VideoRowModel {
    pub name: Seq<char>,
    pub thumbnail: Seq<char>,
    pub numero_corsa: Seq<char>,
    pub data: Seq<char>,
    pub tipologia: Option<Seq<char>>,
    pub cavalli: Option<Seq<char>>,
    pub fantini: Option<Seq<char>>,
    pub primo: Option<Seq<char>>,
    pub secondo: Option<Seq<char>>,
    pub terzo: Option<Seq<char>>,
    pub ippodromo: Seq<char>,
    pub video_views: u32,
    pub bc_video_id: Seq<char>,
}

impl View for VideoRow {
    type V = VideoRowModel;

    open spec fn view(&self) -> VideoRowModel {
        VideoRowModel {
            name: self.name@,
            thumbnail: self.thumbnail@,
            numero_corsa: self.numero_corsa@,
            data: self.data@,
            tipologia: self.tipologia.deep_view(),
            cavalli: self.cavalli.deep_view(),
            fantini: self.fantini.deep_view(),
            primo: self.primo.deep_view(),
            secondo: self.secondo.deep_view(),
            terzo: self.terzo.deep_view(),
            ippodromo: self.ippodromo@,
            video_views: self.video_views,
            bc_video_id: self.bc_video_id@,
        }
    }
}

impl DeepView for VideoRow {
    type V = VideoRowModel;

    open spec fn deep_view(&self) -> VideoRowModel {
        self@
    }
}

impl Clone for VideoRow {
    fn clone(&self) -> (copy: VideoRow)
        ensures
            copy@ == self@,
    {
        VideoRow {
            name: self.name.clone(),
            thumbnail: self.thumbnail.clone(),
            numero_corsa: self.numero_corsa.clone(),
            data: self.data.clone(),
            tipologia: self.tipologia.clone(),
            cavalli: self.cavalli.clone(),
            fantini: self.fantini.clone(),
            primo: self.primo.clone(),
            secondo: self.secondo.clone(),
            terzo: self.terzo.clone(),
            ippodromo: self.ippodromo.clone(),
            video_views: self.video_views,
            bc_video_id: self.bc_video_id.clone(),
        }
    }
}

/// The row under which a newly discovered video is stored: its catalog
/// fields, and a view count of zero whatever count the catalog bundled.
pub open spec fn row_of_video(video: VideoModel) -> VideoRowModel {
    VideoRowModel {
        name: video.name,
        thumbnail: video.thumbnail,
        numero_corsa: video.custom_fields.numero_corsa,
        data: video.custom_fields.data,
        tipologia: video.custom_fields.tipologia,
        cavalli: video.custom_fields.cavalli,
        fantini: video.custom_fields.fantini,
        primo: video.custom_fields.primo,
        secondo: video.custom_fields.secondo,
        terzo: video.custom_fields.terzo,
        ippodromo: video.custom_fields.ippodromo,
        video_views: 0,
        bc_video_id: video.id,
    }
}

/// The rows under which `videos` are stored, in the same order.
pub open spec fn rows_of_videos(videos: Seq<VideoModel>) -> Seq<VideoRowModel> {
    videos.map_values(|video: VideoModel| row_of_video(video))
}

impl From<&Video> for VideoRow {
    fn from(video: &Video) -> (ret: VideoRow)
        ensures
            ret@ == row_of_video(video@),
    {
        VideoRow {
            name: video.name.clone(),
            thumbnail: video.thumbnail.clone(),
            bc_video_id: video.id.clone(),
            numero_corsa: video.custom_fields.numero_corsa.clone(),
            data: video.custom_fields.data.clone(),
            tipologia: video.custom_fields.tipologia.clone(),
            cavalli: video.custom_fields.cavalli.clone(),
            fantini: video.custom_fields.fantini.clone(),
            primo: video.custom_fields.primo.clone(),
            secondo: video.custom_fields.secondo.clone(),
            terzo: video.custom_fields.terzo.clone(),
            ippodromo: video.custom_fields.ippodromo.clone(),
            video_views: 0,
        }
    }
}

impl FromSpecImpl<&Video> for VideoRow {
    open spec fn obeys_from_spec() -> bool {
        true
    }

    open spec fn from_spec(video: &Video) -> VideoRow {
        VideoRow {
            name: video.name,
            thumbnail: video.thumbnail,
            bc_video_id: video.id,
            numero_corsa: video.custom_fields.numero_corsa,
            data: video.custom_fields.data,
            tipologia: video.custom_fields.tipologia,
            cavalli: video.custom_fields.cavalli,
            fantini: video.custom_fields.fantini,
            primo: video.custom_fields.primo,
            secondo: video.custom_fields.secondo,
            terzo: video.custom_fields.terzo,
            ippodromo: video.custom_fields.ippodromo,
            video_views: 0,
        }
    }
}

/// Serving a freshly stored video loses nothing but the bundled view count:
/// the row of a video, read back as a video, is that video with a count of
/// zero.
pub proof fn lemma_video_survives_storage(video: VideoModel)
    ensures
        video_of_row(row_of_video(video)) == (VideoModel {
            video_views: Some(0u32),
            ..video
        }),
{
}

/// The local video table, held in memory: its rows in the order in which
/// they were stored.
pub struct VideoTable {
    rows: Vec<VideoRow>,
}

impl View for VideoTable {
    type V = Seq<VideoRowModel>;

    closed spec fn view(&self) -> Seq<VideoRowModel> {
        self.rows.deep_view()
    }
}

/// The id that ranks last among the ids of `rows`, or `None` where there are
/// no rows.
pub open spec fn spec_latest_id(rows: Seq<VideoRowModel>) -> Option<Seq<char>>
    decreases rows.len(),
{
    if rows.len() == 0 {
        None
    } else {
        match spec_latest_id(rows.drop_last()) {
            None => Some(rows.last().bc_video_id),
            Some(best) => if text_before(best, rows.last().bc_video_id) {
                Some(rows.last().bc_video_id)
            } else {
                Some(best)
            },
        }
    }
}

/// Whether one of `rows` carries the id.
pub open spec fn spec_has_id(rows: Seq<VideoRowModel>, id: Seq<char>) -> bool {
    exists|i: int| 0 <= i < rows.len() && (#[trigger] rows[i]).bc_video_id == id
}

/// `rows` with the view count of every row of that id set to `views`.
pub open spec fn spec_update_views(rows: Seq<VideoRowModel>, id: Seq<char>, views: u32) -> Seq<
    VideoRowModel,
> {
    rows.map_values(
        |row: VideoRowModel|
            if row.bc_video_id == id {
                VideoRowModel { video_views: views, ..row }
            } else {
                row
            },
    )
}

/// The latest id is the id of a row, and no row's id ranks behind it.
pub proof fn lemma_latest_id_ranks_last(rows: Seq<VideoRowModel>)
    ensures
        rows.len() == 0 <==> spec_latest_id(rows) is None,
        spec_latest_id(rows) matches Some(latest) ==> spec_has_id(rows, latest) && forall|i: int|
            0 <= i < rows.len() ==> !text_before(latest, (#[trigger] rows[i]).bc_video_id),
    decreases rows.len(),
{
    if rows.len() > 0 {
        let earlier = rows.drop_last();
        let last = rows.last().bc_video_id;
        lemma_latest_id_ranks_last(earlier);
        let latest = spec_latest_id(rows)->0;
        match spec_latest_id(earlier) {
            None => {
                lemma_text_order(last, last, last);
            },
            Some(best) => {
                let at = choose|i: int|
                    0 <= i < earlier.len() && (#[trigger] earlier[i]).bc_video_id == best;
                assert(rows[at] == earlier[at]);
                assert forall|i: int| 0 <= i < rows.len() implies !text_before(
                    latest,
                    (#[trigger] rows[i]).bc_video_id,
                ) by {
                    let id = rows[i].bc_video_id;
                    lemma_text_order(best, last, id);
                    lemma_text_order(last, last, id);
                    if i < earlier.len() {
                        assert(rows[i] == earlier[i]);
                    }
                }
            },
        }
        assert(rows[rows.len() - 1].bc_video_id == last);
    }
}

/// An id of a row behind which no row's id ranks is the latest id: there is
/// only one such id.
pub proof fn lemma_latest_id_unique(rows: Seq<VideoRowModel>, id: Seq<char>)
    requires
        spec_has_id(rows, id),
        forall|i: int| 0 <= i < rows.len() ==> !text_before(id, (#[trigger] rows[i]).bc_video_id),
    ensures
        spec_latest_id(rows) == Some(id),
{
    lemma_latest_id_ranks_last(rows);
    let latest = spec_latest_id(rows)->0;
    let at = choose|i: int| 0 <= i < rows.len() && (#[trigger] rows[i]).bc_video_id == id;
    let of_latest = choose|i: int|
        0 <= i < rows.len() && (#[trigger] rows[i]).bc_video_id == latest;
    assert(!text_before(latest, rows[at].bc_video_id));
    assert(!text_before(id, rows[of_latest].bc_video_id));
    lemma_text_order(id, latest, id);
}

/// A view count for an id that no row carries leaves the table as it is.
pub proof fn lemma_unknown_id_changes_nothing(rows: Seq<VideoRowModel>, id: Seq<char>, views: u32)
    requires
        !spec_has_id(rows, id),
    ensures
        spec_update_views(rows, id, views) == rows,
{
    assert forall|i: int| 0 <= i < rows.len() implies spec_update_views(rows, id, views)[i]
        == rows[i] by {
        assert(rows[i].bc_video_id != id);
    }
    assert(spec_update_views(rows, id, views) =~= rows);
}

impl VideoTable {
    /// The table without rows.
    pub fn new() -> (table: VideoTable)
        ensures
            table@ == Seq::<VideoRowModel>::empty(),
    {
        let rows: Vec<VideoRow> = Vec::new();
        assert(rows.deep_view() == Seq::<VideoRowModel>::empty());
        VideoTable { rows }
    }

    /// The rows, in the order in which they were stored.
    pub fn rows(&self) -> (rows: &Vec<VideoRow>)
        ensures
            rows.deep_view() == self@,
    {
        &self.rows
    }
}

/// Sets the view count of the rows that carry `bc_video_id` and says whether
/// there was such a row. A count for an id that is not stored changes
/// nothing.
pub fn update_video_views(
    table: &mut VideoTable,
    bc_video_id: &str,
    views: &u32,
) -> (updated: bool)
    ensures
        final(table)@ == spec_update_views(old(table)@, bc_video_id@, *views),
        updated == spec_has_id(old(table)@, bc_video_id@),
        !updated ==> final(table)@ == old(table)@,
{
    let wanted = bc_video_id.to_owned();
    let ghost before = table@;
    let mut updated = false;
    let mut i: usize = 0;
    while i < table.rows.len()
        invariant
            i <= table.rows.len(),
            wanted@ == bc_video_id@,
            before == old(table)@,
            table@.len() == before.len(),
            forall|j: int|
                0 <= j < i ==> (#[trigger] table@[j]) == spec_update_views(
                    before,
                    wanted@,
                    *views,
                )[j],
            forall|j: int| i <= j < before.len() ==> (#[trigger] table@[j]) == before[j],
            updated == spec_has_id(before.take(i as int), wanted@),
        decreases table.rows.len() - i,
    {
        let ghost held = table.rows@;
        let ghost prior = table@;
        let ghost seen = before.take(i as int);
        assert(prior[i as int] == held[i as int]@ && prior[i as int] == before[i as int]);
        assert(before.take(i + 1) == seen.push(before[i as int]));
        let hit = table.rows[i].bc_video_id == wanted;
        if hit {
            table.rows[i].video_views = *views;
            updated = true;
        }
        proof {
            if hit {
                assert(table.rows@ == held.update(
                    i as int,
                    VideoRow { video_views: *views, ..held[i as int] },
                ));
                assert(before.take(i + 1)[i as int].bc_video_id == wanted@);
            } else {
                assert(table.rows@ == held);
                if spec_has_id(before.take(i + 1), wanted@) {
                    let at = choose|j: int|
                        0 <= j < i + 1 && (#[trigger] before.take(i + 1)[j]).bc_video_id
                            == wanted@;
                    assert(seen[at] == before.take(i + 1)[at]);
                }
            }
            assert forall|j: int| 0 <= j < before.len() && j != i implies (#[trigger] table@[j])
                == prior[j] by {
                assert(table.rows@[j] == held[j]);
                assert(prior[j] == held[j]@);
            }
            assert(table@[i as int] == spec_update_views(before, wanted@, *views)[i as int]);
            if spec_has_id(seen, wanted@) {
                let at = choose|j: int|
                    0 <= j < seen.len() && (#[trigger] seen[j]).bc_video_id == wanted@;
                assert(before.take(i + 1)[at] == seen[at]);
            }
        }
        i += 1;
    }
    assert(before.take(i as int) == before);
    assert(table@ == spec_update_views(before, wanted@, *views));
    proof {
        if !updated {
            lemma_unknown_id_changes_nothing(before, wanted@, *views);
        }
    }
    updated
}

/// Whether `at` is the place of the first of `rows` that carries the id.
pub open spec fn spec_first_with_id(rows: Seq<VideoRowModel>, id: Seq<char>, at: int) -> bool {
    &&& 0 <= at < rows.len()
    &&& rows[at].bc_video_id == id
    &&& forall|j: int| 0 <= j < at ==> (#[trigger] rows[j]).bc_video_id != id
}

/// Returns the id that ranks last among the stored ids: the cursor of the
/// next catalog pass. `None` where nothing is stored.
pub fn get_latest_bc_video_id(table: &VideoTable) -> (latest: Option<String>)
    ensures
        latest.deep_view() == spec_latest_id(table@),
{
    let mut best: Option<usize> = None;
    let mut i: usize = 0;
    assert(table@.take(0).len() == 0);
    while i < table.rows.len()
        invariant
            i <= table.rows.len(),
            match best {
                None => spec_latest_id(table@.take(i as int)) is None,
                Some(at) => at < i && spec_latest_id(table@.take(i as int)) == Some(
                    table@[at as int].bc_video_id,
                ),
            },
        decreases table.rows.len() - i,
    {
        let better = match best {
            None => true,
            Some(at) => text_less(
                table.rows[at].bc_video_id.as_str(),
                table.rows[i].bc_video_id.as_str(),
            ),
        };
        proof {
            let seen = table@.take(i + 1);
            assert(seen.drop_last() == table@.take(i as int));
            assert(seen.last() == table@[i as int]);
        }
        if better {
            best = Some(i);
        }
        i += 1;
    }
    assert(table@.take(i as int) == table@);
    match best {
        None => None,
        Some(at) => Some(table.rows[at].bc_video_id.clone()),
    }
}

/// Stores `new_videos` behind the rows already there, in their order.
pub fn save_videos(table: &mut VideoTable, new_videos: &Vec<VideoRow>)
    ensures
        final(table)@ == old(table)@ + new_videos.deep_view(),
{
    let ghost before = table@;
    let ghost added = new_videos.deep_view();
    let mut i: usize = 0;
    assert(added.take(0) == Seq::<VideoRowModel>::empty());
    while i < new_videos.len()
        invariant
            i <= new_videos.len(),
            before == old(table)@,
            added == new_videos.deep_view(),
            table@ == before + added.take(i as int),
        decreases new_videos.len() - i,
    {
        let ghost held = table@;
        let row = new_videos[i].clone();
        table.rows.push(row);
        proof {
            assert(table@ == held.push(added[i as int]));
            assert(added.take(i + 1) == added.take(i as int).push(added[i as int]));
        }
        i += 1;
    }
    assert(added.take(i as int) == added);
}

/// Looks a video up by its id: the first row that carries it, as the video
/// it is served as. `None` where no row carries the id.
pub fn get_video(table: &VideoTable, video_id: &str) -> (found: Option<Video>)
    ensures
        found is Some <==> spec_has_id(table@, video_id@),
        found matches Some(video) ==> exists|at: int|
            spec_first_with_id(table@, video_id@, at) && video@ == video_of_row(
                #[trigger] table@[at],
            ),
{
    let wanted = video_id.to_owned();
    let mut i: usize = 0;
    while i < table.rows.len()
        invariant
            i <= table.rows.len(),
            wanted@ == video_id@,
            forall|j: int| 0 <= j < i ==> (#[trigger] table@[j]).bc_video_id != wanted@,
        decreases table.rows.len() - i,
    {
        assert(table@[i as int] == table.rows[i as int]@);
        if table.rows[i].bc_video_id == wanted {
            let video = Video::from(&table.rows[i]);
            assert(spec_first_with_id(table@, video_id@, i as int));
            return Some(video);
        }
        i += 1;
    }
    None
}

/// Whether the row at `first` is listed before the row at `second`: the
/// later date first, rows of one date in the order in which they were
/// stored.
pub open spec fn spec_listed_before(rows: Seq<VideoRowModel>, first: int, second: int) -> bool {
    text_before(rows[second].data, rows[first].data) || (rows[first].data == rows[second].data
        && first < second)
}

/// Whether `order` holds the places of all `rows` in the order of the
/// listing.
pub open spec fn spec_is_listing(rows: Seq<VideoRowModel>, order: Seq<int>) -> bool {
    &&& order.len() == rows.len()
    &&& forall|k: int| 0 <= k < order.len() ==> 0 <= #[trigger] order[k] < rows.len()
    &&& forall|k: int, l: int|
        0 <= k < l < order.len() ==> spec_listed_before(
            rows,
            #[trigger] order[k],
            #[trigger] order[l],
        )
}

/// The window of a listing: the number of all rows, and of the rows in the
/// listing's order those from `offset` on, `limit` of them at most, as the
/// videos they are served as. A number of rows beyond `u32` is given as the
/// largest `u32`.
pub open spec fn spec_listed(
    rows: Seq<VideoRowModel>,
    order: Seq<int>,
    limit: u32,
    offset: u32,
) -> PlayerResponseModel {
    let start = if offset <= order.len() {
        offset as int
    } else {
        order.len() as int
    };
    let end = if start + limit <= order.len() {
        start + limit
    } else {
        order.len() as int
    };
    PlayerResponseModel {
        count: if rows.len() <= u32::MAX {
            rows.len() as u32
        } else {
            u32::MAX
        },
        videos: order.subrange(start, end).map_values(|place: int| video_of_row(rows[place])),
    }
}

/// Being listed before is a strict total order on the places of the rows.
pub proof fn lemma_listed_before(rows: Seq<VideoRowModel>, first: int, second: int, third: int)
    ensures
        !spec_listed_before(rows, first, first),
        first == second || spec_listed_before(rows, first, second) || spec_listed_before(
            rows,
            second,
            first,
        ),
        !(spec_listed_before(rows, first, second) && spec_listed_before(rows, second, first)),
        spec_listed_before(rows, first, second) && spec_listed_before(rows, second, third)
            ==> spec_listed_before(rows, first, third),
{
    let a = rows[first].data;
    let b = rows[second].data;
    let c = rows[third].data;
    lemma_text_order(a, b, c);
    lemma_text_order(b, a, c);
    lemma_text_order(c, b, a);
    lemma_text_order(b, c, a);
    lemma_text_order(c, a, b);
    lemma_text_order(a, c, b);
}

/// Places that rise strictly and stay below their number are `0, 1, 2, ...`.
proof fn lemma_rising_places(places: Seq<int>, at: int)
    requires
        0 <= at < places.len(),
        forall|k: int| 0 <= k < places.len() ==> 0 <= #[trigger] places[k] < places.len(),
        forall|k: int, l: int|
            0 <= k < l < places.len() ==> #[trigger] places[k] < #[trigger] places[l],
    ensures
        places[at] == at,
{
    lemma_rising_places_from_below(places, at);
    lemma_rising_places_from_above(places, at);
}

proof fn lemma_rising_places_from_below(places: Seq<int>, at: int)
    requires
        0 <= at < places.len(),
        forall|k: int| 0 <= k < places.len() ==> 0 <= #[trigger] places[k] < places.len(),
        forall|k: int, l: int|
            0 <= k < l < places.len() ==> #[trigger] places[k] < #[trigger] places[l],
    ensures
        places[at] >= at,
    decreases at,
{
    if at > 0 {
        lemma_rising_places_from_below(places, at - 1);
        assert(places[at - 1] < places[at]);
    }
}

proof fn lemma_rising_places_from_above(places: Seq<int>, at: int)
    requires
        0 <= at < places.len(),
        forall|k: int| 0 <= k < places.len() ==> 0 <= #[trigger] places[k] < places.len(),
        forall|k: int, l: int|
            0 <= k < l < places.len() ==> #[trigger] places[k] < #[trigger] places[l],
    ensures
        places[at] <= at,
    decreases places.len() - at,
{
    if at + 1 < places.len() {
        lemma_rising_places_from_above(places, at + 1);
        assert(places[at] < places[at + 1]);
    }
}

/// A listing holds the place of every row, and none twice.
pub proof fn lemma_listing_is_complete(rows: Seq<VideoRowModel>, order: Seq<int>)
    requires
        spec_is_listing(rows, order),
    ensures
        order.no_duplicates(),
        forall|place: int| 0 <= place < rows.len() ==> order.contains(place),
{
    assert forall|k: int, l: int|
        0 <= k < order.len() && 0 <= l < order.len() && k != l implies order[k] != order[l] by {
        lemma_listed_before(rows, order[k], order[l], order[k]);
    }
    let all = vstd::set_lib::set_int_range(0, rows.len() as int);
    order.unique_seq_to_set();
    vstd::seq_lib::seq_to_set_is_finite(order);
    vstd::set_lib::lemma_int_range(0, rows.len() as int);
    assert forall|place: int| order.to_set().contains(place) implies all.contains(place) by {
        let k = choose|k: int| 0 <= k < order.len() && order[k] == place;
        assert(0 <= order[k] < rows.len());
    }
    vstd::set_lib::lemma_subset_equality(order.to_set(), all);
    assert forall|place: int| 0 <= place < rows.len() implies order.contains(place) by {
        assert(all.contains(place));
        assert(order.to_set().contains(place));
    }
}

/// The rows have one listing only.
pub proof fn lemma_listing_unique(rows: Seq<VideoRowModel>, order: Seq<int>, other: Seq<int>)
    requires
        spec_is_listing(rows, order),
        spec_is_listing(rows, other),
    ensures
        order == other,
{
    lemma_listing_is_complete(rows, other);
    let found = Seq::new(
        order.len(),
        |k: int| choose|at: int| 0 <= at < other.len() && other[at] == order[k],
    );
    assert forall|k: int| 0 <= k < order.len() implies 0 <= #[trigger] found[k] < other.len()
        && other[found[k]] == order[k] by {
        assert(other.contains(order[k]));
    }
    assert forall|k: int, l: int| 0 <= k < l < found.len() implies #[trigger] found[k]
        < #[trigger] found[l] by {
        lemma_listed_before(rows, order[k], order[l], order[k]);
        assert(spec_listed_before(rows, order[k], order[l]));
        if found[l] < found[k] {
            assert(spec_listed_before(rows, other[found[l]], other[found[k]]));
        }
    }
    assert forall|k: int| 0 <= k < order.len() implies order[k] == other[k] by {
        lemma_rising_places(found, k);
    }
    assert(order =~= other);
}

/// The places that a listing holds: the integers behind the indices.
pub open spec fn spec_places(order: Seq<usize>) -> Seq<int> {
    order.map_values(|place: usize| place as int)
}

/// Puts the places of all rows in the order of the listing.
pub fn listing_order(table: &VideoTable) -> (order: Vec<usize>)
    ensures
        spec_is_listing(table@, spec_places(order@)),
{
    let ghost rows = table@;
    let mut order: Vec<usize> = Vec::new();
    let mut i: usize = 0;
    while i < table.rows.len()
        invariant
            i <= table.rows.len(),
            rows == table@,
            order.len() == i,
            forall|k: int| 0 <= k < order.len() ==> 0 <= #[trigger] order[k] < i,
            forall|k: int, l: int|
                0 <= k < l < order.len() ==> spec_listed_before(
                    rows,
                    #[trigger] order[k] as int,
                    #[trigger] order[l] as int,
                ),
        decreases table.rows.len() - i,
    {
        let mut slot: usize = 0;
        while slot < order.len() && !text_less(
            table.rows[order[slot]].data.as_str(),
            table.rows[i].data.as_str(),
        )
            invariant
                slot <= order.len(),
                i < table.rows.len(),
                rows == table@,
                forall|k: int| 0 <= k < order.len() ==> 0 <= #[trigger] order[k] < i,
                forall|k: int|
                    0 <= k < slot ==> spec_listed_before(
                        rows,
                        #[trigger] order[k] as int,
                        i as int,
                    ),
            decreases order.len() - slot,
        {
            proof {
                let held = order[slot as int] as int;
                assert(rows[held] == table.rows[held]@);
                assert(rows[i as int] == table.rows[i as int]@);
                lemma_text_order(rows[held].data, rows[i as int].data, rows[held].data);
            }
            slot += 1;
        }
        let ghost sorted = order@;
        proof {
            if slot < order.len() {
                let held = order[slot as int] as int;
                assert(rows[held] == table.rows[held]@);
                assert(rows[i as int] == table.rows[i as int]@);
                assert(spec_listed_before(rows, i as int, held));
                assert forall|l: int| slot < l < sorted.len() implies spec_listed_before(
                    rows,
                    i as int,
                    #[trigger] sorted[l] as int,
                ) by {
                    lemma_listed_before(rows, i as int, held, sorted[l] as int);
                }
            }
        }
        order.insert(slot, i);
        proof {
            assert forall|k: int| 0 <= k < order.len() implies 0 <= #[trigger] order[k] < i + 1 by {
                if k < slot {
                    assert(order[k] == sorted[k]);
                } else if k > slot {
                    assert(order[k] == sorted[k - 1]);
                }
            }
            assert forall|k: int, l: int| 0 <= k < l < order.len() implies spec_listed_before(
                rows,
                #[trigger] order[k] as int,
                #[trigger] order[l] as int,
            ) by {
                if k < slot {
                    assert(order[k] == sorted[k]);
                } else if k > slot {
                    assert(order[k] == sorted[k - 1]);
                }
                if l < slot {
                    assert(order[l] == sorted[l]);
                } else if l > slot {
                    assert(order[l] == sorted[l - 1]);
                }
            }
        }
        i += 1;
    }
    order
}

/// Lists the videos of the table: the later date first, videos of one date
/// in the order in which they were stored. Returns the number of all videos
/// and, of the listing, the videos from `offset` on, `limit` of them at
/// most.
pub fn get_videos(table: &VideoTable, limit: &u32, offset: &u32) -> (response: PlayerResponse)
    ensures
        exists|order: Seq<int>| #[trigger]
            spec_is_listing(table@, order) && response@ == spec_listed(
                table@,
                order,
                *limit,
                *offset,
            ),
{
    let order = listing_order(table);
    let ghost places = spec_places(order@);
    let ghost rows = table@;
    let total = table.rows.len();
    let start = if (*offset as usize) <= total {
        *offset as usize
    } else {
        total
    };
    let end = if (*limit as usize) <= total - start {
        start + *limit as usize
    } else {
        total
    };
    let mut videos: Vec<Video> = Vec::new();
    let mut k: usize = start;
    assert(videos.deep_view() == places.subrange(start as int, start as int).map_values(
        |place: int| video_of_row(rows[place]),
    ));
    while k < end
        invariant
            start <= k <= end <= total,
            total == table.rows.len(),
            rows == table@,
            places == spec_places(order@),
            spec_is_listing(rows, places),
            videos.deep_view() == places.subrange(start as int, k as int).map_values(
                |place: int| video_of_row(rows[place]),
            ),
        decreases end - k,
    {
        let ghost served = videos.deep_view();
        let place = order[k];
        assert(places[k as int] == place);
        assert(rows[place as int] == table.rows[place as int]@);
        videos.push(Video::from(&table.rows[place]));
        proof {
            assert(videos.deep_view() == served.push(video_of_row(rows[place as int])));
            assert(places.subrange(start as int, k + 1) == places.subrange(
                start as int,
                k as int,
            ).push(place as int));
            assert(places.subrange(start as int, k + 1).map_values(
                |place: int| video_of_row(rows[place]),
            ) == served.push(video_of_row(rows[place as int])));
        }
        k += 1;
    }
    let count = if total <= u32::MAX as usize {
        total as u32
    } else {
        u32::MAX
    };
    let response = PlayerResponse { count, videos };
    assert(response@ == spec_listed(rows, places, *limit, *offset));
    response
}

} // verus!
