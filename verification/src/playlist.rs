//! Loading the videos of a channel's upload playlist, page by page.
//!
//! The loader decides and the caller performs the requests: it asks for a
//! page of playlist items, then for the details of those videos, then, for
//! each video without recorded coordinates, for the coordinates that the
//! location service guesses from its title, and then for the next page while
//! videos are still wanted and the playlist has more pages.

use vstd::prelude::*;
use vstd::string::*;
use crate::json::{
    element_path, json_array_len, json_array_len_at, json_parses, json_str, json_str_at,
    json_text, json_text_at, key, member_element_path, parse_json, path1, path2, path3,
    steps_view, JsonStep, JsonStepView, ParsedJson,
};
use crate::model::{
    topics_view, videos_view, Location, LocationView, Video, VideoView, YoutubeTopic,
    YoutubeTopicView,
};
use crate::request::{HttpRequest, HttpRequestView};
use crate::text::{
    chars_equal, chars_of, comma_terminated, opt_text, decimal_chars, decimal_text, parse_bool_chars,
    parse_bool_spec, remove_char, remove_char_chars, string_from_chars, strip_quotes,
    trim_end_char, trim_end_char_chars,
};
use crate::youtube_api::YoutubeApi;

verus! {

/// The most videos one playlist page is asked for.
pub const PAGE_SIZE: u32 = 50;

/// How many videos the next page asks for, and how many stay open after it.
pub open spec fn plan_page(open: u32) -> (u32, u32) {
    if open <= PAGE_SIZE {
        (open, 0)
    } else {
        (PAGE_SIZE, (open - PAGE_SIZE) as u32)
    }
}

/// The page token that stands for the first page.
pub open spec fn first_page_token() -> Seq<char> {
    "FIRST_PAGE"@
}

/// The request for a page of the playlist's items. The fourth parameter is
/// the page token, or for the first page a repeated `maxResults`.
pub open spec fn items_request_of(api_key: Seq<char>, playlist_id: Seq<char>, page_token: Seq<char>, max_results: u32) -> HttpRequestView {
    HttpRequestView {
        url: "https://youtube.googleapis.com/youtube/v3/playlistItems"@,
        query: seq![
            ("part"@, "contentDetails"@),
            ("key"@, api_key),
            ("playlistId"@, playlist_id),
            if page_token != first_page_token() {
                ("pageToken"@, page_token)
            } else {
                ("maxResults"@, decimal_text(max_results as nat))
            },
            ("maxResults"@, decimal_text(max_results as nat)),
        ],
        json_headers: true,
    }
}

/// The JSON texts of `items[i].contentDetails.videoId` of an items page.
pub open spec fn page_video_ids(body: Seq<char>, n: nat) -> Seq<Seq<char>> {
    Seq::new(
        n,
        |i: int|
            json_text(
                body,
                seq![key("items"@), JsonStepView::Index(i as nat), key("contentDetails"@), key("videoId"@)],
            ),
    )
}

/// The `id` parameter listing the videos: the ids joined by commas, without
/// trailing commas, double quotes or backslashes.
pub open spec fn ids_parameter(ids: Seq<Seq<char>>) -> Seq<char> {
    remove_char(remove_char(trim_end_char(comma_terminated(ids), ','), '"'), '\\')
}

/// The request for the details of the listed videos.
pub open spec fn details_request_of(api_key: Seq<char>, ids: Seq<char>) -> HttpRequestView {
    HttpRequestView {
        url: "https://youtube.googleapis.com/youtube/v3/videos"@,
        query: seq![
            ("part"@, "snippet,status,topicDetails,recordingDetails"@),
            ("key"@, api_key),
            ("id"@, ids),
        ],
        json_headers: true,
    }
}

/// The request asking the location service for coordinates of a title.
pub open spec fn coordinates_request_of(title: Seq<char>) -> HttpRequestView {
    HttpRequestView {
        url: "http://localhost:80/coordinates/"@,
        query: seq![("video_title"@, title)],
        json_headers: true,
    }
}

/// A path into `items[i]` of a details response.
pub open spec fn detail_path(i: nat, tail: Seq<JsonStepView>) -> Seq<JsonStepView> {
    seq![key("items"@), JsonStepView::Index(i)] + tail
}

/// The text at `tail` in `items[i]`, without surrounding quotes.
pub open spec fn detail_field(body: Seq<char>, i: nat, tail: Seq<JsonStepView>) -> Seq<char> {
    strip_quotes(json_text(body, detail_path(i, tail)))
}

/// The number of videos in a details (or items) response.
pub open spec fn item_count(body: Seq<char>) -> Option<nat> {
    json_array_len(body, seq![key("items"@)])
}

/// The topics of video `i`: one per element of `topicDetails.topicCategories`
/// with an empty id and the category's unquoted text as URL; `None` when that
/// member is not an array.
pub open spec fn video_topics_of(body: Seq<char>, i: nat) -> Option<Seq<YoutubeTopicView>> {
    match json_array_len(body, detail_path(i, seq![key("topicDetails"@), key("topicCategories"@)])) {
        Some(n) => Some(
            Seq::new(
                n,
                |j: int|
                    YoutubeTopicView {
                        topic_id: Seq::empty(),
                        topic_url: detail_field(
                            body,
                            i,
                            seq![key("topicDetails"@), key("topicCategories"@), JsonStepView::Index(j as nat)],
                        ),
                    },
            ),
        ),
        None => None,
    }
}

/// The title of video `i`: the contents of its `snippet.title` string (as
/// serde_json's `as_str` gives it, escapes resolved), or, when that is not a
/// string, its JSON text without surrounding quotes (`null` when missing).
pub open spec fn video_title_of(body: Seq<char>, i: nat) -> Seq<char> {
    match json_str(body, detail_path(i, seq![key("snippet"@), key("title"@)])) {
        Some(title) => title,
        None => detail_field(body, i, seq![key("snippet"@), key("title"@)]),
    }
}

/// The recorded latitude of video `i`.
pub open spec fn recorded_latitude(body: Seq<char>, i: nat) -> Seq<char> {
    detail_field(body, i, seq![key("recordingDetails"@), key("location"@), key("latitude"@)])
}

/// Video `i` has no recorded coordinates, so they are asked for by title.
pub open spec fn needs_coordinates(body: Seq<char>, i: nat) -> bool {
    recorded_latitude(body, i) == "null"@
}

/// The recorded location of video `i`.
pub open spec fn recorded_location(body: Seq<char>, i: nat) -> LocationView {
    LocationView {
        latitude: recorded_latitude(body, i),
        longitude: detail_field(body, i, seq![key("recordingDetails"@), key("location"@), key("longitude"@)]),
        description: detail_field(body, i, seq![key("recordingDetails"@), key("locationDescription"@)]),
    }
}

/// The location that a location service response gives: the unquoted texts
/// of its first element's `latitude` and `longitude`, no description; `None`
/// when the response is not JSON.
pub open spec fn coordinates_location_of(body: Seq<char>) -> Option<LocationView> {
    if json_parses(body) {
        Some(
            LocationView {
                latitude: strip_quotes(json_text(body, seq![JsonStepView::Index(0), key("latitude"@)])),
                longitude: strip_quotes(json_text(body, seq![JsonStepView::Index(0), key("longitude"@)])),
                description: "null"@,
            },
        )
    } else {
        None
    }
}

/// Video `i` of a details response with the given topics and location; its
/// description is not loaded. `None` when `status.madeForKids` is not a boolean.
pub open spec fn video_of(body: Seq<char>, i: nat, topics: Seq<YoutubeTopicView>, location: LocationView) -> Option<VideoView> {
    match parse_bool_spec(detail_field(body, i, seq![key("status"@), key("madeForKids"@)])) {
        Some(made_for_kids) => Some(
            VideoView {
                video_id: detail_field(body, i, seq![key("id"@)]),
                video_titel: detail_field(body, i, seq![key("snippet"@), key("title"@)]),
                video_description: Seq::empty(),
                video_published_at: detail_field(body, i, seq![key("snippet"@), key("publishedAt"@)]),
                video_category_id: detail_field(body, i, seq![key("snippet"@), key("categoryId"@)]),
                video_default_language: detail_field(body, i, seq![key("snippet"@), key("defaultLanguage"@)]),
                video_default_audio_language: detail_field(
                    body,
                    i,
                    seq![key("snippet"@), key("defaultAudioLanguage"@)],
                ),
                video_topics: topics,
                video_location: location,
                made_for_kids: made_for_kids,
            },
        ),
        None => None,
    }
}

/// Where reading the videos of a details response stops.
pub enum ScanView {
    /// A video could not be read.
    Unreadable,
    /// Video `index` needs coordinates; `videos` are those read so far.
    NeedsCoordinates(nat, Seq<VideoView>),
    /// All videos were read.
    Complete(Seq<VideoView>),
}

/// Reads videos `i..n` of a details response after the `videos` read so far,
/// up to the first one that needs coordinates.
pub open spec fn scan(body: Seq<char>, n: nat, i: nat, videos: Seq<VideoView>) -> ScanView
    decreases n - i,
{
    if i >= n {
        ScanView::Complete(videos)
    } else {
        match video_topics_of(body, i) {
            None => ScanView::Unreadable,
            Some(topics) => if needs_coordinates(body, i) {
                ScanView::NeedsCoordinates(i, videos)
            } else {
                match video_of(body, i, topics, recorded_location(body, i)) {
                    None => ScanView::Unreadable,
                    Some(v) => scan(body, n, i + 1, videos.push(v)),
                }
            },
        }
    }
}

/// Where the loader stands.
pub enum StageView {
    /// A page of at most `max_results` playlist items was asked for.
    AwaitItems { max_results: u32 },
    /// The details of that page's `listed` videos were asked for; `next_page`
    /// is the token of the following page, if the playlist has one.
    AwaitDetails { next_page: Option<Seq<char>>, listed: nat },
    /// Coordinates for video `index` of the `details` response were asked for
    /// by its title.
    AwaitCoordinates { next_page: Option<Seq<char>>, details: Seq<char>, index: nat },
    /// Loading has ended.
    Finished,
}

/// The loader: the API key and playlist, how many videos stay open after the
/// current page, the videos read so far, and where it stands.
pub struct LoaderView {
    pub api_key: Seq<char>,
    pub playlist_id: Seq<char>,
    pub open: u32,
    pub videos: Seq<VideoView>,
    pub stage: StageView,
}

/// What the loader asks of its caller.
pub enum ActionView {
    /// Send this request and hand its response body back.
    Send(HttpRequestView),
    /// Loading is done; these are the videos, in playlist order.
    Done(Seq<VideoView>),
    /// A response could not be read.
    Unreadable,
}

pub open spec fn with_stage(s: LoaderView, stage: StageView, videos: Seq<VideoView>) -> LoaderView {
    LoaderView {
        api_key: s.api_key,
        playlist_id: s.playlist_id,
        open: s.open,
        videos: videos,
        stage: stage,
    }
}

/// Loading ends on a response that cannot be read.
pub open spec fn give_up(s: LoaderView) -> (LoaderView, ActionView) {
    (with_stage(s, StageView::Finished, Seq::empty()), ActionView::Unreadable)
}

/// The loader's first state and request, for `amount` videos starting at
/// the page `page_token`.
pub open spec fn loader_start(api_key: Seq<char>, playlist_id: Seq<char>, page_token: Seq<char>, amount: u32) -> (LoaderView, HttpRequestView) {
    let (max_results, rest) = plan_page(amount);
    (
        LoaderView {
            api_key: api_key,
            playlist_id: playlist_id,
            open: rest,
            videos: Seq::empty(),
            stage: StageView::AwaitItems { max_results },
        },
        items_request_of(api_key, playlist_id, page_token, max_results),
    )
}

/// After a page's videos are read: done when no video stays open or there is
/// no next page, otherwise the next page is asked for.
pub open spec fn page_end(s: LoaderView, videos: Seq<VideoView>, next_page: Option<Seq<char>>) -> (LoaderView, ActionView) {
    if s.open == 0 {
        (with_stage(s, StageView::Finished, Seq::empty()), ActionView::Done(videos))
    } else {
        match next_page {
            Some(token) => {
                let (max_results, rest) = plan_page(s.open);
                (
                    LoaderView {
                        api_key: s.api_key,
                        playlist_id: s.playlist_id,
                        open: rest,
                        videos: videos,
                        stage: StageView::AwaitItems { max_results },
                    },
                    ActionView::Send(items_request_of(s.api_key, s.playlist_id, token, max_results)),
                )
            },
            None => (with_stage(s, StageView::Finished, Seq::empty()), ActionView::Done(videos)),
        }
    }
}

/// Goes on from where reading a details response stopped.
pub open spec fn after_scan(s: LoaderView, next_page: Option<Seq<char>>, details: Seq<char>, outcome: ScanView) -> (LoaderView, ActionView) {
    match outcome {
        ScanView::Unreadable => give_up(s),
        ScanView::NeedsCoordinates(i, videos) => (
            with_stage(s, StageView::AwaitCoordinates { next_page, details, index: i }, videos),
            ActionView::Send(coordinates_request_of(video_title_of(details, i))),
        ),
        ScanView::Complete(videos) => page_end(s, videos, next_page),
    }
}

/// What the loader does with the response `body` to its last request.
pub open spec fn loader_step(s: LoaderView, body: Seq<char>) -> (LoaderView, ActionView) {
    match s.stage {
        StageView::AwaitItems { .. } => if json_parses(body) && item_count(body) is Some {
            (
                with_stage(
                    s,
                    StageView::AwaitDetails {
                        next_page: json_str(body, seq![key("nextPageToken"@)]),
                        listed: item_count(body)->0,
                    },
                    s.videos,
                ),
                ActionView::Send(details_request_of(s.api_key, ids_parameter(page_video_ids(body, item_count(body)->0)))),
            )
        } else {
            give_up(s)
        },
        StageView::AwaitDetails { next_page, .. } => if json_parses(body) && item_count(body) is Some {
            after_scan(s, next_page, body, scan(body, item_count(body)->0, 0, s.videos))
        } else {
            give_up(s)
        },
        StageView::AwaitCoordinates { next_page, details, index } => match (
            coordinates_location_of(body),
            video_topics_of(details, index),
            item_count(details),
        ) {
            (Some(location), Some(topics), Some(n)) => match video_of(details, index, topics, location) {
                Some(v) => after_scan(s, next_page, details, scan(details, n, index + 1, s.videos.push(v))),
                None => give_up(s),
            },
            _ => give_up(s),
        },
        StageView::Finished => (s, ActionView::Unreadable),
    }
}

/// The replies the loader can read at its stage: an items page that is JSON
/// with an `items` array; a details response that is JSON with an `items`
/// array whose videos, up to the first without recorded coordinates, have a
/// `topicDetails.topicCategories` array and a boolean `status.madeForKids`;
/// and a location service reply that is JSON, after which the video and the
/// following ones up to the next without recorded coordinates can be read
/// in the same way. On any other reply, and once loading has ended, the
/// loader answers `Unreadable`.
pub open spec fn loader_reply_readable(s: LoaderView, body: Seq<char>) -> bool {
    match s.stage {
        StageView::AwaitItems { .. } => json_parses(body) && item_count(body) is Some,
        StageView::AwaitDetails { .. } => json_parses(body) && item_count(body) is Some && !(scan(
            body,
            item_count(body)->0,
            0,
            s.videos,
        ) is Unreadable),
        StageView::AwaitCoordinates { details, index, .. } => match (
            coordinates_location_of(body),
            video_topics_of(details, index),
            item_count(details),
        ) {
            (Some(location), Some(topics), Some(n)) => match video_of(details, index, topics, location) {
                Some(v) => !(scan(details, n, index + 1, s.videos.push(v)) is Unreadable),
                None => false,
            },
            _ => false,
        },
        StageView::Finished => false,
    }
}

/// How many videos the next page asks for, and how many stay open after it.
pub fn plan_page_exec(open: u32) -> (r: (u32, u32))
    ensures
        r == plan_page(open),
{
    if open <= PAGE_SIZE {
        (open, 0)
    } else {
        (PAGE_SIZE, open - PAGE_SIZE)
    }
}

fn text_of(s: &str) -> (r: String)
    ensures
        r@ == s@,
{
    String::from_str(s)
}

/// The request for a page of the playlist's items.
pub fn items_request(api_key: &String, playlist_id: &String, page_token: &String, max_results: u32) -> (r: HttpRequest)
    ensures
        r@ == items_request_of(api_key@, playlist_id@, page_token@, max_results),
{
    let max_text = string_from_chars(decimal_chars(max_results).as_slice());
    let token = chars_of(page_token.as_str());
    let first = chars_of("FIRST_PAGE");
    let fourth = if !chars_equal(token.as_slice(), first.as_slice()) {
        (text_of("pageToken"), page_token.clone())
    } else {
        (text_of("maxResults"), max_text.clone())
    };
    let mut query: Vec<(String, String)> = Vec::new();
    query.push((text_of("part"), text_of("contentDetails")));
    query.push((text_of("key"), api_key.clone()));
    query.push((text_of("playlistId"), playlist_id.clone()));
    query.push(fourth);
    query.push((text_of("maxResults"), max_text));
    let r = HttpRequest {
        url: text_of("https://youtube.googleapis.com/youtube/v3/playlistItems"),
        query,
        json_headers: true,
    };
    assert(r@.query =~= items_request_of(api_key@, playlist_id@, page_token@, max_results).query);
    r
}

/// The `id` parameter for the `n` videos of an items page.
fn ids_parameter_at(doc: &ParsedJson, n: usize) -> (r: String)
    ensures
        r@ == ids_parameter(page_video_ids(doc@, n as nat)),
{
    let ghost ids = page_video_ids(doc@, n as nat);
    let mut joined: Vec<char> = Vec::new();
    let mut i: usize = 0;
    while i < n
        invariant
            i <= n,
            ids == page_video_ids(doc@, n as nat),
            joined@ == comma_terminated(ids.take(i as int)),
        decreases n - i,
    {
        let p = member_element_path("items", i, path2("contentDetails", "videoId"));
        assert(steps_view(p@) =~= seq![key("items"@), JsonStepView::Index(i as nat), key("contentDetails"@), key("videoId"@)]);
        let t = json_text_at(doc, p.as_slice());
        assert(t@ == ids[i as int]);
        let mut tc = chars_of(t.as_str());
        joined.append(&mut tc);
        joined.push(',');
        assert(ids.take(i + 1).drop_last() =~= ids.take(i as int));
        assert(joined@ =~= comma_terminated(ids.take(i + 1)));
        i = i + 1;
    }
    assert(ids.take(n as int) =~= ids);
    let trimmed = trim_end_char_chars(joined.as_slice(), ',');
    let unquoted = remove_char_chars(trimmed.as_slice(), '"');
    let cleaned = remove_char_chars(unquoted.as_slice(), '\\');
    string_from_chars(cleaned.as_slice())
}

/// The request for the details of the listed videos.
pub fn details_request(api_key: &String, ids: String) -> (r: HttpRequest)
    ensures
        r@ == details_request_of(api_key@, ids@),
{
    let mut query: Vec<(String, String)> = Vec::new();
    query.push((text_of("part"), text_of("snippet,status,topicDetails,recordingDetails")));
    query.push((text_of("key"), api_key.clone()));
    query.push((text_of("id"), ids));
    let r = HttpRequest {
        url: text_of("https://youtube.googleapis.com/youtube/v3/videos"),
        query,
        json_headers: true,
    };
    assert(r@.query =~= details_request_of(api_key@, r@.query[2].1).query);
    r
}

/// The request asking the location service for coordinates of a title.
pub fn coordinates_request(title: String) -> (r: HttpRequest)
    ensures
        r@ == coordinates_request_of(title@),
{
    let mut query: Vec<(String, String)> = Vec::new();
    query.push((text_of("video_title"), title));
    let r = HttpRequest { url: text_of("http://localhost:80/coordinates/"), query, json_headers: true };
    assert(r@.query =~= coordinates_request_of(r@.query[0].1).query);
    r
}

/// The JSON text at `tail` in `items[i]`.
fn detail_text_at(doc: &ParsedJson, i: usize, tail: Vec<JsonStep>) -> (r: String)
    ensures
        r@ == json_text(doc@, detail_path(i as nat, steps_view(tail@))),
{
    let p = member_element_path("items", i, tail);
    json_text_at(doc, p.as_slice())
}

/// The text at `tail` in `items[i]`, without surrounding quotes.
fn detail_field_at(doc: &ParsedJson, i: usize, tail: Vec<JsonStep>) -> (r: String)
    ensures
        r@ == detail_field(doc@, i as nat, steps_view(tail@)),
{
    let t = detail_text_at(doc, i, tail);
    String::from_str(YoutubeApi::rem_first_and_last(t.as_str()))
}

/// The title of video `i`.
fn video_title_at(doc: &ParsedJson, i: usize) -> (r: String)
    ensures
        r@ == video_title_of(doc@, i as nat),
{
    let p = member_element_path("items", i, path2("snippet", "title"));
    match json_str_at(doc, p.as_slice()) {
        Some(title) => title,
        None => detail_field_at(doc, i, path2("snippet", "title")),
    }
}

/// The number of elements of `items`.
fn item_count_at(doc: &ParsedJson) -> (r: Option<usize>)
    ensures
        match r {
            Some(n) => item_count(doc@) == Some(n as nat),
            None => item_count(doc@) is None,
        },
{
    json_array_len_at(doc, path1("items").as_slice())
}

/// The topics of video `i`.
fn video_topics_at(doc: &ParsedJson, i: usize) -> (r: Option<Vec<YoutubeTopic>>)
    ensures
        match video_topics_of(doc@, i as nat) {
            Some(t) => r matches Some(v) && topics_view(v@) == t,
            None => r is None,
        },
{
    let n = match json_array_len_at(
        doc,
        member_element_path("items", i, path2("topicDetails", "topicCategories")).as_slice(),
    ) {
        Some(n) => n,
        None => return None,
    };
    let ghost want = video_topics_of(doc@, i as nat)->0;
    let mut topics: Vec<YoutubeTopic> = Vec::new();
    let mut j: usize = 0;
    while j < n
        invariant
            j <= n,
            video_topics_of(doc@, i as nat) == Some(want),
            want.len() == n,
            topics_view(topics@) =~= want.take(j as int),
        decreases n - j,
    {
        let mut tail = path2("topicDetails", "topicCategories");
        let ghost t0 = tail@;
        tail.push(JsonStep::Index(j));
        assert(steps_view(tail@) =~= seq![key("topicDetails"@), key("topicCategories"@), JsonStepView::Index(j as nat)]);
        let url = detail_field_at(doc, i, tail);
        let topic = YoutubeTopic::new(String::new(), url);
        let ghost before = topics@;
        assert(topic@ == want[j as int]);
        topics.push(topic);
        assert(topics_view(topics@) =~= topics_view(before).push(want[j as int]));
        assert(want.take(j + 1) =~= want.take(j as int).push(want[j as int]));
        j = j + 1;
    }
    assert(want.take(n as int) =~= want);
    Some(topics)
}

/// Video `i` has no recorded coordinates.
fn needs_coordinates_at(doc: &ParsedJson, i: usize) -> (r: bool)
    ensures
        r == needs_coordinates(doc@, i as nat),
{
    let lat = detail_field_at(doc, i, path3("recordingDetails", "location", "latitude"));
    let lc = chars_of(lat.as_str());
    let null = chars_of("null");
    chars_equal(lc.as_slice(), null.as_slice())
}

/// The recorded location of video `i`.
fn recorded_location_at(doc: &ParsedJson, i: usize) -> (r: Location)
    ensures
        r@ == recorded_location(doc@, i as nat),
{
    Location::new(
        detail_field_at(doc, i, path3("recordingDetails", "location", "latitude")),
        detail_field_at(doc, i, path3("recordingDetails", "location", "longitude")),
        detail_field_at(doc, i, path2("recordingDetails", "locationDescription")),
    )
}

/// The location that a location service response gives.
pub fn coordinates_location(body: &str) -> (r: Option<Location>)
    ensures
        match coordinates_location_of(body@) {
            Some(l) => r matches Some(loc) && loc@ == l,
            None => r is None,
        },
{
    let doc = match parse_json(body) {
        Some(doc) => doc,
        None => return None,
    };
    let lat_path = element_path(0, path1("latitude"));
    assert(steps_view(lat_path@) =~= seq![JsonStepView::Index(0), key("latitude"@)]);
    let lon_path = element_path(0, path1("longitude"));
    assert(steps_view(lon_path@) =~= seq![JsonStepView::Index(0), key("longitude"@)]);
    let lat = json_text_at(&doc, lat_path.as_slice());
    let lon = json_text_at(&doc, lon_path.as_slice());
    Some(
        Location::new(
            String::from_str(YoutubeApi::rem_first_and_last(lat.as_str())),
            String::from_str(YoutubeApi::rem_first_and_last(lon.as_str())),
            text_of("null"),
        ),
    )
}

/// Video `i` with the given topics and location.
fn video_at(doc: &ParsedJson, i: usize, topics: Vec<YoutubeTopic>, location: Location) -> (r: Option<Video>)
    ensures
        match video_of(doc@, i as nat, topics_view(topics@), location@) {
            Some(v) => r matches Some(video) && video@ == v,
            None => r is None,
        },
{
    let kids = detail_field_at(doc, i, path2("status", "madeForKids"));
    let kc = chars_of(kids.as_str());
    let made_for_kids = match parse_bool_chars(kc.as_slice()) {
        Some(b) => b,
        None => return None,
    };
    Some(
        Video::new(
            detail_field_at(doc, i, path1("id")),
            detail_field_at(doc, i, path2("snippet", "title")),
            String::new(),
            detail_field_at(doc, i, path2("snippet", "publishedAt")),
            detail_field_at(doc, i, path2("snippet", "categoryId")),
            detail_field_at(doc, i, path2("snippet", "defaultLanguage")),
            detail_field_at(doc, i, path2("snippet", "defaultAudioLanguage")),
            topics,
            location,
            made_for_kids,
        ),
    )
}

/// Where reading the videos of a details response stopped.
enum ScanStop {
    Unreadable,
    NeedsCoordinates(usize),
    Complete,
}

/// Reads videos `from..n` of a details response onto `videos`, up to the
/// first one that needs coordinates.
fn scan_videos(doc: &ParsedJson, n: usize, from: usize, videos: &mut Vec<Video>) -> (r: ScanStop)
    ensures
        match scan(doc@, n as nat, from as nat, videos_view(old(videos)@)) {
            ScanView::Unreadable => r is Unreadable,
            ScanView::NeedsCoordinates(i, vs) => r matches ScanStop::NeedsCoordinates(j)
                && j == i && videos_view(final(videos)@) == vs,
            ScanView::Complete(vs) => r is Complete && videos_view(final(videos)@) == vs,
        },
{
    let ghost outcome = scan(doc@, n as nat, from as nat, videos_view(videos@));
    let mut i: usize = from;
    while i < n
        invariant
            from <= i,
            i <= n || i == from,
            outcome == scan(doc@, n as nat, i as nat, videos_view(videos@)),
            outcome == scan(doc@, n as nat, from as nat, videos_view(old(videos)@)),
        decreases n - i,
    {
        let topics = match video_topics_at(doc, i) {
            Some(t) => t,
            None => return ScanStop::Unreadable,
        };
        if needs_coordinates_at(doc, i) {
            return ScanStop::NeedsCoordinates(i);
        }
        let location = recorded_location_at(doc, i);
        match video_at(doc, i, topics, location) {
            Some(v) => {
                let ghost before = videos@;
                videos.push(v);
                assert(videos_view(videos@) =~= videos_view(before).push(v@));
            },
            None => return ScanStop::Unreadable,
        }
        i = i + 1;
    }
    ScanStop::Complete
}

/// Where the loader stands.
pub enum Stage {
    AwaitItems { max_results: u32 },
    AwaitDetails { next_page: Option<String>, listed: usize },
    AwaitCoordinates { next_page: Option<String>, details: ParsedJson, index: usize },
    Finished,
}

impl View for Stage {
    type V = StageView;

    open spec fn view(&self) -> StageView {
        match self {
            Stage::AwaitItems { max_results } => StageView::AwaitItems { max_results: *max_results },
            Stage::AwaitDetails { next_page, listed } => StageView::AwaitDetails {
                next_page: opt_text(*next_page),
                listed: *listed as nat,
            },
            Stage::AwaitCoordinates { next_page, details, index } => StageView::AwaitCoordinates {
                next_page: opt_text(*next_page),
                details: details@,
                index: *index as nat,
            },
            Stage::Finished => StageView::Finished,
        }
    }
}

/// What the loader asks of its caller.
pub enum LoaderAction {
    /// Send this request and hand its response body to `on_response`.
    Send(HttpRequest),
    /// Loading is done; these are the videos, in playlist order.
    Done(Vec<Video>),
    /// A response could not be read.
    Unreadable,
}

impl View for LoaderAction {
    type V = ActionView;

    open spec fn view(&self) -> ActionView {
        match self {
            LoaderAction::Send(r) => ActionView::Send(r@),
            LoaderAction::Done(v) => ActionView::Done(videos_view(v@)),
            LoaderAction::Unreadable => ActionView::Unreadable,
        }
    }
}

/// Loads the videos of an upload playlist; see the module documentation.
pub struct PlaylistLoader {
    api_key: String,
    playlist_id: String,
    open: u32,
    videos: Vec<Video>,
    stage: Stage,
}

impl View for PlaylistLoader {
    type V = LoaderView;

    closed spec fn view(&self) -> LoaderView {
        LoaderView {
            api_key: self.api_key@,
            playlist_id: self.playlist_id@,
            open: self.open,
            videos: videos_view(self.videos@),
            stage: self.stage@,
        }
    }
}

impl PlaylistLoader {
    /// A loader for `amount` videos of the playlist starting at the page
    /// `page_token` (`FIRST_PAGE` for the first page), and its first request.
    pub fn start(api_key: String, playlist_id: String, page_token: &String, amount: u32) -> (r: (PlaylistLoader, HttpRequest))
        ensures
            (r.0@, r.1@) == loader_start(api_key@, playlist_id@, page_token@, amount),
    {
        let (max_results, rest) = plan_page_exec(amount);
        let request = items_request(&api_key, &playlist_id, page_token, max_results);
        let loader = PlaylistLoader {
            api_key,
            playlist_id,
            open: rest,
            videos: Vec::new(),
            stage: Stage::AwaitItems { max_results },
        };
        assert(videos_view(loader.videos@) =~= Seq::<VideoView>::empty());
        (loader, request)
    }

    /// Loading has ended.
    pub fn is_finished(&self) -> (r: bool)
        ensures
            r == (self@.stage is Finished),
    {
        match self.stage {
            Stage::Finished => true,
            _ => false,
        }
    }

    fn give_up(&mut self) -> (r: LoaderAction)
        ensures
            (final(self)@, r@) == give_up(old(self)@),
    {
        self.stage = Stage::Finished;
        self.videos = Vec::new();
        assert(videos_view(self.videos@) =~= Seq::<VideoView>::empty());
        LoaderAction::Unreadable
    }

    fn end_page(&mut self, next_page: Option<String>) -> (r: LoaderAction)
        ensures
            (final(self)@, r@) == page_end(
                with_stage(old(self)@, old(self)@.stage, old(self)@.videos),
                old(self)@.videos,
                opt_text(next_page),
            ),
    {
        let done = self.open == 0 || next_page.is_none();
        if done {
            let mut videos: Vec<Video> = Vec::new();
            std::mem::swap(&mut videos, &mut self.videos);
            self.stage = Stage::Finished;
            assert(videos_view(self.videos@) =~= Seq::<VideoView>::empty());
            LoaderAction::Done(videos)
        } else {
            let token = next_page.unwrap();
            let (max_results, rest) = plan_page_exec(self.open);
            self.open = rest;
            self.stage = Stage::AwaitItems { max_results };
            LoaderAction::Send(items_request(&self.api_key, &self.playlist_id, &token, max_results))
        }
    }

    fn continue_scan(&mut self, next_page: Option<String>, details: ParsedJson, n: usize, from: usize) -> (r: LoaderAction)
        requires
            item_count(details@) == Some(n as nat),
        ensures
            (final(self)@, r@) == after_scan(
                old(self)@,
                opt_text(next_page),
                details@,
                scan(details@, n as nat, from as nat, old(self)@.videos),
            ),
    {
        match scan_videos(&details, n, from, &mut self.videos) {
            ScanStop::Unreadable => self.give_up(),
            ScanStop::NeedsCoordinates(i) => {
                let title = video_title_at(&details, i);
                self.stage = Stage::AwaitCoordinates { next_page, details, index: i };
                LoaderAction::Send(coordinates_request(title))
            },
            ScanStop::Complete => self.end_page(next_page),
        }
    }

    /// Goes on with the response `body` to the last request (once loading has
    /// ended, nothing more is read).
    pub fn on_response(&mut self, body: &str) -> (r: LoaderAction)
        ensures
            (final(self)@, r@) == loader_step(old(self)@, body@),
            r@ is Unreadable <==> !loader_reply_readable(old(self)@, body@),
    {
        let mut stage = Stage::Finished;
        std::mem::swap(&mut stage, &mut self.stage);
        match stage {
            Stage::AwaitItems { .. } => {
                let doc = match parse_json(body) {
                    Some(doc) => doc,
                    None => return self.give_up(),
                };
                let n = match item_count_at(&doc) {
                    Some(n) => n,
                    None => return self.give_up(),
                };
                let ids = ids_parameter_at(&doc, n);
                let next_page = json_str_at(&doc, path1("nextPageToken").as_slice());
                self.stage = Stage::AwaitDetails { next_page, listed: n };
                LoaderAction::Send(details_request(&self.api_key, ids))
            },
            Stage::AwaitDetails { next_page, .. } => {
                let doc = match parse_json(body) {
                    Some(doc) => doc,
                    None => return self.give_up(),
                };
                let n = match item_count_at(&doc) {
                    Some(n) => n,
                    None => return self.give_up(),
                };
                self.continue_scan(next_page, doc, n, 0)
            },
            Stage::AwaitCoordinates { next_page, details, index } => {
                let location = match coordinates_location(body) {
                    Some(l) => l,
                    None => return self.give_up(),
                };
                let topics = match video_topics_at(&details, index) {
                    Some(t) => t,
                    None => return self.give_up(),
                };
                let n = match item_count_at(&details) {
                    Some(n) => n,
                    None => return self.give_up(),
                };
                match video_at(&details, index, topics, location) {
                    Some(v) => {
                        let ghost before = self.videos@;
                        let ghost vv = v@;
                        self.videos.push(v);
                        assert(videos_view(self.videos@) =~= videos_view(before).push(vv));
                        let next = if index < n { index + 1 } else { index };
                        assert(scan(details@, n as nat, next as nat, videos_view(self.videos@))
                            == scan(details@, n as nat, index as nat + 1, videos_view(self.videos@)));
                        self.continue_scan(next_page, details, n, next)
                    },
                    None => self.give_up(),
                }
            },
            Stage::Finished => LoaderAction::Unreadable,
        }
    }
}



/// A page asks for at most `PAGE_SIZE` videos, the full page size whenever
/// videos stay open after it, and together with the videos left open it
/// accounts for exactly the videos that were open.
pub proof fn law_page_plan_accounts_for_every_video(open: u32)
    ensures
        plan_page(open).0 + plan_page(open).1 == open,
        plan_page(open).0 <= PAGE_SIZE,
        plan_page(open).1 > 0 ==> plan_page(open).0 == PAGE_SIZE,
{
}

/// Reading a details response only appends videos to those read before.
pub proof fn law_scan_extends(body: Seq<char>, n: nat, i: nat, videos: Seq<VideoView>)
    ensures
        match scan(body, n, i, videos) {
            ScanView::NeedsCoordinates(_, vs) => vs.len() >= videos.len() && vs.subrange(
                0,
                videos.len() as int,
            ) == videos,
            ScanView::Complete(vs) => vs.len() >= videos.len() && vs.subrange(0, videos.len() as int)
                == videos,
            ScanView::Unreadable => true,
        },
    decreases n - i,
{
    if i < n {
        match video_topics_of(body, i) {
            None => {},
            Some(topics) => if !needs_coordinates(body, i) {
                match video_of(body, i, topics, recorded_location(body, i)) {
                    None => {},
                    Some(v) => {
                        law_scan_extends(body, n, i + 1, videos.push(v));
                        match scan(body, n, i + 1, videos.push(v)) {
                            ScanView::NeedsCoordinates(_, vs) => {
                                assert(vs.subrange(0, videos.len() as int) =~= videos.push(v).subrange(
                                    0,
                                    videos.len() as int,
                                ));
                            },
                            ScanView::Complete(vs) => {
                                assert(vs.subrange(0, videos.len() as int) =~= videos.push(v).subrange(
                                    0,
                                    videos.len() as int,
                                ));
                            },
                            ScanView::Unreadable => {},
                        }
                    },
                }
            } else {
                assert(videos.subrange(0, videos.len() as int) =~= videos);
            },
        }
    } else {
        assert(videos.subrange(0, videos.len() as int) =~= videos);
    }
}

/// `a` begins with `b`.
pub open spec fn starts_with_videos(a: Seq<VideoView>, b: Seq<VideoView>) -> bool {
    a.len() >= b.len() && a.subrange(0, b.len() as int) == b
}

/// Videos once read are kept, in order: while loading goes on the loader
/// holds them at the front, and when it is done they open the result.
pub proof fn law_loader_keeps_read_videos(s: LoaderView, body: Seq<char>)
    ensures
        match loader_step(s, body).1 {
            ActionView::Send(_) => starts_with_videos(loader_step(s, body).0.videos, s.videos),
            ActionView::Done(vs) => starts_with_videos(vs, s.videos),
            ActionView::Unreadable => true,
        },
{
    assert(s.videos.subrange(0, s.videos.len() as int) =~= s.videos);
    match s.stage {
        StageView::AwaitItems { .. } => {},
        StageView::AwaitDetails { .. } => {
            if json_parses(body) && item_count(body) is Some {
                law_scan_extends(body, item_count(body)->0, 0, s.videos);
            }
        },
        StageView::AwaitCoordinates { next_page, details, index } => {
            match (coordinates_location_of(body), video_topics_of(details, index), item_count(details)) {
                (Some(location), Some(topics), Some(n)) => match video_of(details, index, topics, location) {
                    Some(v) => {
                        law_scan_extends(details, n, index + 1, s.videos.push(v));
                        let pushed = s.videos.push(v);
                        assert(pushed.subrange(0, s.videos.len() as int) =~= s.videos);
                        match scan(details, n, index + 1, pushed) {
                            ScanView::NeedsCoordinates(_, vs) => {
                                assert(vs.subrange(0, s.videos.len() as int) =~= vs.subrange(
                                    0,
                                    pushed.len() as int,
                                ).subrange(0, s.videos.len() as int));
                            },
                            ScanView::Complete(vs) => {
                                assert(vs.subrange(0, s.videos.len() as int) =~= vs.subrange(
                                    0,
                                    pushed.len() as int,
                                ).subrange(0, s.videos.len() as int));
                            },
                            ScanView::Unreadable => {},
                        }
                    },
                    None => {},
                },
                _ => {},
            }
        },
        StageView::Finished => {},
    }
}

/// The number of videos still open never grows, and each further page lowers
/// it, so loading asks for finitely many pages.
pub proof fn law_loader_open_shrinks(s: LoaderView, body: Seq<char>)
    ensures
        loader_step(s, body).0.open <= s.open,
        (loader_step(s, body).0.stage is AwaitItems) ==> loader_step(s, body).0.open < s.open,
{
}



/// Coordinates are asked for only for a video without recorded coordinates,
/// and only after every earlier video of the page was read with its recorded
/// location.
pub proof fn law_coordinates_only_for_unlocated_videos(body: Seq<char>, n: nat, i: nat, videos: Seq<VideoView>)
    ensures
        scan(body, n, i, videos) matches ScanView::NeedsCoordinates(j, vs) ==> {
            &&& i <= j < n
            &&& needs_coordinates(body, j)
            &&& vs.len() == videos.len() + (j - i)
            &&& forall|k: int| 0 <= k < j - i ==> (#[trigger] vs[videos.len() + k]).video_location
                == recorded_location(body, (i + k) as nat)
        },
    decreases n - i,
{
    if i < n {
        match video_topics_of(body, i) {
            None => {},
            Some(topics) => if !needs_coordinates(body, i) {
                match video_of(body, i, topics, recorded_location(body, i)) {
                    None => {},
                    Some(v) => {
                        law_coordinates_only_for_unlocated_videos(body, n, i + 1, videos.push(v));
                        law_scan_extends(body, n, i + 1, videos.push(v));
                        if let ScanView::NeedsCoordinates(j, vs) = scan(body, n, i + 1, videos.push(v)) {
                            assert(vs.subrange(0, videos.len() + 1 as int)[videos.len() as int] == vs[videos.len() as int]);
                            assert(videos.push(v)[videos.len() as int] == v);
                            assert forall|k: int| 0 <= k < j - i implies (#[trigger] vs[videos.len() + k]).video_location
                                == recorded_location(body, (i + k) as nat) by {
                                if k > 0 {
                                    assert(vs[videos.push(v).len() + (k - 1)] == vs[videos.len() + k]);
                                }
                            }
                        }
                    },
                }
            },
        }
    }
}



/// `v` is item `i` of the details response `body`: read with its topics, and
/// with its recorded location unless it has no recorded coordinates (then
/// its location is the one the location service gave).
pub open spec fn is_item_video(body: Seq<char>, i: nat, v: VideoView) -> bool {
    &&& video_topics_of(body, i) is Some
    &&& video_of(body, i, video_topics_of(body, i)->0, v.video_location) == Some(v)
    &&& !needs_coordinates(body, i) ==> v.video_location == recorded_location(body, i)
}

/// `videos` are the items `from`, `from + 1`, ... of the details response
/// `body`, in the order of the response.
pub open spec fn items_in_order(body: Seq<char>, from: nat, videos: Seq<VideoView>) -> bool {
    forall|j: int| 0 <= j < videos.len() ==> #[trigger] is_item_video(body, (from + j) as nat, videos[j])
}

/// The videos after a step: those of `Done`, or those the loader holds.
pub open spec fn videos_after(s1: LoaderView, a1: ActionView) -> Seq<VideoView> {
    match a1 {
        ActionView::Done(vs) => vs,
        _ => s1.videos,
    }
}

/// After reading the details response `details` from item `from` on, the
/// videos are those held before followed by the items read, in the order of
/// the response: up to the item whose coordinates are now asked for, or to
/// the end of the response.
pub open spec fn appended_in_order(
    before: Seq<VideoView>,
    details: Seq<char>,
    from: nat,
    s1: LoaderView,
    a1: ActionView,
) -> bool {
    let after = videos_after(s1, a1);
    let upto: int = match s1.stage {
        StageView::AwaitCoordinates { index, .. } => index as int,
        _ => item_count(details)->0 as int,
    };
    &&& after.len() == before.len() + (upto - from)
    &&& after.take(before.len() as int) == before
    &&& items_in_order(details, from, after.skip(before.len() as int))
}

proof fn lemma_scan_in_order(body: Seq<char>, n: nat, i: nat, vs: Seq<VideoView>)
    requires
        i <= n,
    ensures
        match scan(body, n, i, vs) {
            ScanView::Complete(ws) => ws.len() == vs.len() + (n - i) && ws.take(vs.len() as int) == vs
                && items_in_order(body, i, ws.skip(vs.len() as int)),
            ScanView::NeedsCoordinates(k, ws) => i <= k < n && ws.len() == vs.len() + (k - i) && ws.take(
                vs.len() as int,
            ) == vs && items_in_order(body, i, ws.skip(vs.len() as int)) && needs_coordinates(body, k)
                && video_topics_of(body, k) is Some,
            ScanView::Unreadable => true,
        },
    decreases n - i,
{
    if i < n {
        match video_topics_of(body, i) {
            None => {},
            Some(topics) => if needs_coordinates(body, i) {
                assert(vs.take(vs.len() as int) =~= vs);
                assert(vs.skip(vs.len() as int) =~= Seq::<VideoView>::empty());
            } else {
                match video_of(body, i, topics, recorded_location(body, i)) {
                    None => {},
                    Some(v) => {
                        let pushed = vs.push(v);
                        lemma_scan_in_order(body, n, i + 1, pushed);
                        assert(is_item_video(body, i, v));
                        let ws = match scan(body, n, i + 1, pushed) {
                            ScanView::Complete(ws) => ws,
                            ScanView::NeedsCoordinates(_, ws) => ws,
                            ScanView::Unreadable => pushed,
                        };
                        if !(scan(body, n, i + 1, pushed) is Unreadable) {
                            assert(ws.take(vs.len() as int) =~= ws.take(pushed.len() as int).take(vs.len() as int));
                            assert(ws.take(pushed.len() as int) == pushed);
                            assert(pushed.take(vs.len() as int) =~= vs);
                            assert(ws[vs.len() as int] == ws.take(pushed.len() as int)[vs.len() as int]);
                            let tail = ws.skip(vs.len() as int);
                            assert forall|j: int| 0 <= j < tail.len() implies #[trigger] is_item_video(
                                body,
                                (i + j) as nat,
                                tail[j],
                            ) by {
                                if j == 0 {
                                    assert(tail[0] == v);
                                } else {
                                    assert(tail[j] == ws.skip(pushed.len() as int)[j - 1]);
                                    assert(is_item_video(body, ((i + 1) + (j - 1)) as nat, ws.skip(pushed.len() as int)[j - 1]));
                                }
                            }
                        }
                    },
                }
            },
        }
    } else {
        assert(vs.take(vs.len() as int) =~= vs);
        assert(vs.skip(vs.len() as int) =~= Seq::<VideoView>::empty());
    }
}

/// The videos of a page come in the order of the details response, after
/// those of the earlier pages: a details response appends its items in
/// order up to the first one without recorded coordinates, and the
/// coordinates reply for that item appends it, with the location the service
/// gave, then the following items in order. As the loader is done only when
/// a page ends (and hands over exactly the videos it holds), its result is
/// the first page's videos followed by the later pages' videos, each page in
/// the order of its response; none is dropped, repeated or moved.
pub proof fn law_page_videos_in_reply_order(s: LoaderView, body: Seq<char>)
    requires
        coordinates_for_unlocated_item(s),
        !(loader_step(s, body).1 is Unreadable),
    ensures
        ({
            let (s1, a1) = loader_step(s, body);
            match s.stage {
                StageView::AwaitDetails { .. } => appended_in_order(s.videos, body, 0, s1, a1),
                StageView::AwaitCoordinates { details, index, .. } => {
                    &&& appended_in_order(s.videos, details, index, s1, a1)
                    &&& videos_after(s1, a1)[s.videos.len() as int].video_location == coordinates_location_of(
                        body,
                    )->0
                },
                _ => videos_after(s1, a1) == s.videos,
            }
        }),
{
    match s.stage {
        StageView::AwaitDetails { next_page, .. } => {
            let n = item_count(body)->0;
            lemma_scan_in_order(body, n, 0, s.videos);
        },
        StageView::AwaitCoordinates { next_page, details, index } => {
            let n = item_count(details)->0;
            let location = coordinates_location_of(body)->0;
            let topics = video_topics_of(details, index)->0;
            let v = video_of(details, index, topics, location)->0;
            let pushed = s.videos.push(v);
            lemma_scan_in_order(details, n, index + 1, pushed);
            let ws = videos_after(loader_step(s, body).0, loader_step(s, body).1);
            assert(ws.take(s.videos.len() as int) =~= ws.take(pushed.len() as int).take(s.videos.len() as int));
            assert(pushed.take(s.videos.len() as int) =~= s.videos);
            assert(ws[s.videos.len() as int] == ws.take(pushed.len() as int)[s.videos.len() as int]);
            assert(ws[s.videos.len() as int] == v);
            let tail = ws.skip(s.videos.len() as int);
            assert(is_item_video(details, index, v));
            assert forall|j: int| 0 <= j < tail.len() implies #[trigger] is_item_video(
                details,
                (index + j) as nat,
                tail[j],
            ) by {
                if j == 0 {
                    assert(tail[0] == v);
                } else {
                    assert(tail[j] == ws.skip(pushed.len() as int)[j - 1]);
                    assert(is_item_video(details, ((index + 1) + (j - 1)) as nat, ws.skip(pushed.len() as int)[j - 1]));
                }
            }
        },
        _ => {},
    }
}

/// While the loader waits for coordinates, it waits for those of an item of
/// the details response without recorded coordinates.
pub open spec fn coordinates_for_unlocated_item(s: LoaderView) -> bool {
    s.stage matches StageView::AwaitCoordinates { details, index, .. } ==> item_count(details) matches Some(n)
        && index < n && needs_coordinates(details, index)
}

/// Every state the loader reaches waits for coordinates only of an item
/// without recorded coordinates: so at start, and kept by every step.
pub proof fn law_coordinates_wait_for_unlocated_item(
    api_key: Seq<char>,
    playlist_id: Seq<char>,
    page_token: Seq<char>,
    amount: u32,
    s: LoaderView,
    body: Seq<char>,
)
    ensures
        coordinates_for_unlocated_item(loader_start(api_key, playlist_id, page_token, amount).0),
        coordinates_for_unlocated_item(s) ==> coordinates_for_unlocated_item(loader_step(s, body).0),
{
    match s.stage {
        StageView::AwaitDetails { .. } => {
            if json_parses(body) && item_count(body) is Some {
                lemma_scan_in_order(body, item_count(body)->0, 0, s.videos);
            }
        },
        StageView::AwaitCoordinates { details, index, .. } => {
            if coordinates_for_unlocated_item(s) {
                match (coordinates_location_of(body), video_topics_of(details, index), item_count(details)) {
                    (Some(location), Some(topics), Some(n)) => match video_of(details, index, topics, location) {
                        Some(v) => {
                            lemma_scan_in_order(details, n, index + 1, s.videos.push(v));
                        },
                        None => {},
                    },
                    _ => {},
                }
            }
        },
        _ => {},
    }
}

/// The loader stays within `amount` videos: those it holds, those the
/// current page can still add, and those left open for later pages together
/// are at most `amount`.
pub open spec fn within_budget(s: LoaderView, amount: nat) -> bool {
    match s.stage {
        StageView::AwaitItems { max_results } => s.videos.len() + max_results + s.open <= amount,
        StageView::AwaitDetails { listed, .. } => s.videos.len() + listed + s.open <= amount,
        StageView::AwaitCoordinates { details, index, .. } => item_count(details) matches Some(n) && index < n
            && s.videos.len() + (n - index) + s.open <= amount,
        StageView::Finished => true,
    }
}

/// A reply keeps to what was asked: an items page holds at most the items
/// asked for, and a details response at most the videos listed.
pub open spec fn reply_within_limits(s: LoaderView, body: Seq<char>) -> bool {
    match s.stage {
        StageView::AwaitItems { max_results } => item_count(body) matches Some(c) ==> c <= max_results,
        StageView::AwaitDetails { listed, .. } => item_count(body) matches Some(c) ==> c <= listed,
        _ => true,
    }
}

/// A loader starts within the amount of videos it is asked for.
pub proof fn law_start_within_amount(api_key: Seq<char>, playlist_id: Seq<char>, page_token: Seq<char>, amount: u32)
    ensures
        within_budget(loader_start(api_key, playlist_id, page_token, amount).0, amount as nat),
{
}

/// When every reply keeps to what was asked, the loader stays within the
/// amount of videos it was asked for, so it never hands over more videos
/// than that amount.
pub proof fn law_loader_stays_within_amount(s: LoaderView, body: Seq<char>, amount: nat)
    requires
        within_budget(s, amount),
        reply_within_limits(s, body),
    ensures
        within_budget(loader_step(s, body).0, amount),
        loader_step(s, body).1 matches ActionView::Done(vs) ==> vs.len() <= amount,
{
    match s.stage {
        StageView::AwaitDetails { .. } => {
            if json_parses(body) && item_count(body) is Some {
                lemma_scan_in_order(body, item_count(body)->0, 0, s.videos);
            }
        },
        StageView::AwaitCoordinates { details, index, .. } => {
            match (coordinates_location_of(body), video_topics_of(details, index), item_count(details)) {
                (Some(location), Some(topics), Some(n)) => match video_of(details, index, topics, location) {
                    Some(v) => {
                        lemma_scan_in_order(details, n, index + 1, s.videos.push(v));
                    },
                    None => {},
                },
                _ => {},
            }
        },
        _ => {},
    }
}

/// The text at `tail` in element `i` of `items`, without surrounding
/// quotes, read along the JSON path itself.
pub open spec fn item_text(body: Seq<char>, i: nat, tail: Seq<JsonStepView>) -> Seq<char> {
    strip_quotes(json_text(body, seq![key("items"@), JsonStepView::Index(i)] + tail))
}

/// A video read as item `i` of a details response takes every field from
/// that item, at the member the field names (texts without surrounding
/// quotes; no description). It has one topic per element of
/// `topicDetails.topicCategories`, in that order, with an empty id and the
/// element's text as URL; it is made for kids as `status.madeForKids` says;
/// and when the item records a latitude, its location is the recorded
/// latitude, longitude and location description.
pub proof fn law_item_video_fields(body: Seq<char>, i: nat, v: VideoView)
    requires
        is_item_video(body, i, v),
    ensures
        ({
            let item = seq![key("items"@), JsonStepView::Index(i)];
            let categories = item + seq![key("topicDetails"@), key("topicCategories"@)];
            let latitude = item_text(body, i, seq![key("recordingDetails"@), key("location"@), key("latitude"@)]);
            &&& v.video_id == item_text(body, i, seq![key("id"@)])
            &&& v.video_titel == item_text(body, i, seq![key("snippet"@), key("title"@)])
            &&& v.video_description == Seq::<char>::empty()
            &&& v.video_published_at == item_text(body, i, seq![key("snippet"@), key("publishedAt"@)])
            &&& v.video_category_id == item_text(body, i, seq![key("snippet"@), key("categoryId"@)])
            &&& v.video_default_language == item_text(body, i, seq![key("snippet"@), key("defaultLanguage"@)])
            &&& v.video_default_audio_language == item_text(
                body,
                i,
                seq![key("snippet"@), key("defaultAudioLanguage"@)],
            )
            &&& parse_bool_spec(item_text(body, i, seq![key("status"@), key("madeForKids"@)])) == Some(v.made_for_kids)
            &&& json_array_len(body, categories) == Some(v.video_topics.len())
            &&& forall|j: int|
                0 <= j < v.video_topics.len() ==> #[trigger] v.video_topics[j] == YoutubeTopicView {
                    topic_id: Seq::empty(),
                    topic_url: strip_quotes(json_text(body, categories.push(JsonStepView::Index(j as nat)))),
                }
            &&& latitude != "null"@ ==> v.video_location == LocationView {
                latitude: latitude,
                longitude: item_text(body, i, seq![key("recordingDetails"@), key("location"@), key("longitude"@)]),
                description: item_text(body, i, seq![key("recordingDetails"@), key("locationDescription"@)]),
            }
        }),
{
    let item = seq![key("items"@), JsonStepView::Index(i)];
    let tails: Seq<Seq<JsonStepView>> = seq![
        seq![key("id"@)],
        seq![key("snippet"@), key("title"@)],
        seq![key("snippet"@), key("publishedAt"@)],
        seq![key("snippet"@), key("categoryId"@)],
        seq![key("snippet"@), key("defaultLanguage"@)],
        seq![key("snippet"@), key("defaultAudioLanguage"@)],
        seq![key("status"@), key("madeForKids"@)],
        seq![key("recordingDetails"@), key("location"@), key("latitude"@)],
        seq![key("recordingDetails"@), key("location"@), key("longitude"@)],
        seq![key("recordingDetails"@), key("locationDescription"@)],
    ];
    assert forall|t: int| 0 <= t < tails.len() implies detail_field(body, i, #[trigger] tails[t]) == item_text(body, i, tails[t]) by {
        assert(detail_path(i, tails[t]) =~= item + tails[t]);
    }
    assert(detail_field(body, i, tails[0]) == item_text(body, i, tails[0]));
    assert(detail_field(body, i, tails[1]) == item_text(body, i, tails[1]));
    assert(detail_field(body, i, tails[2]) == item_text(body, i, tails[2]));
    assert(detail_field(body, i, tails[3]) == item_text(body, i, tails[3]));
    assert(detail_field(body, i, tails[4]) == item_text(body, i, tails[4]));
    assert(detail_field(body, i, tails[5]) == item_text(body, i, tails[5]));
    assert(detail_field(body, i, tails[6]) == item_text(body, i, tails[6]));
    assert(detail_field(body, i, tails[7]) == item_text(body, i, tails[7]));
    assert(detail_field(body, i, tails[8]) == item_text(body, i, tails[8]));
    assert(detail_field(body, i, tails[9]) == item_text(body, i, tails[9]));
    let categories = item + seq![key("topicDetails"@), key("topicCategories"@)];
    assert(detail_path(i, seq![key("topicDetails"@), key("topicCategories"@)]) =~= categories);
    assert forall|j: int| 0 <= j < v.video_topics.len() implies #[trigger] v.video_topics[j] == YoutubeTopicView {
        topic_id: Seq::empty(),
        topic_url: strip_quotes(json_text(body, categories.push(JsonStepView::Index(j as nat)))),
    } by {
        assert(detail_path(i, seq![key("topicDetails"@), key("topicCategories"@), JsonStepView::Index(j as nat)])
            =~= categories.push(JsonStepView::Index(j as nat)));
    }
}

/// When the loader waits for coordinates of an item, it has just asked the
/// location service for them by that item's title: the contents of its
/// `snippet.title` string, or that member's text without surrounding quotes
/// when it is not a string.
pub proof fn law_coordinates_asked_by_title(s: LoaderView, body: Seq<char>)
    ensures
        loader_step(s, body).0.stage matches StageView::AwaitCoordinates { details, index, .. } ==> {
            let title_path = seq![key("items"@), JsonStepView::Index(index), key("snippet"@), key("title"@)];
            let title = match json_str(details, title_path) {
                Some(t) => t,
                None => item_text(details, index, seq![key("snippet"@), key("title"@)]),
            };
            loader_step(s, body).1 == ActionView::Send(
                HttpRequestView {
                    url: "http://localhost:80/coordinates/"@,
                    query: seq![("video_title"@, title)],
                    json_headers: true,
                },
            )
        },
{
    if let StageView::AwaitCoordinates { details, index, .. } = loader_step(s, body).0.stage {
        assert(detail_path(index, seq![key("snippet"@), key("title"@)]) =~= seq![
            key("items"@),
            JsonStepView::Index(index),
            key("snippet"@),
            key("title"@),
        ]);
    }
}

/// The loader asks for a page of playlist items at the playlistItems
/// endpoint with the API key, the playlist and the page size (the page
/// token instead of the first `maxResults` after the first page), and for
/// the details of the listed videos at the videos endpoint.
pub proof fn law_page_requests(
    api_key: Seq<char>,
    playlist_id: Seq<char>,
    page_token: Seq<char>,
    max_results: u32,
    ids: Seq<char>,
)
    ensures
        items_request_of(api_key, playlist_id, page_token, max_results) == (HttpRequestView {
            url: "https://youtube.googleapis.com/youtube/v3/playlistItems"@,
            query: seq![
                ("part"@, "contentDetails"@),
                ("key"@, api_key),
                ("playlistId"@, playlist_id),
                if page_token == "FIRST_PAGE"@ {
                    ("maxResults"@, decimal_text(max_results as nat))
                } else {
                    ("pageToken"@, page_token)
                },
                ("maxResults"@, decimal_text(max_results as nat)),
            ],
            json_headers: true,
        }),
        details_request_of(api_key, ids) == (HttpRequestView {
            url: "https://youtube.googleapis.com/youtube/v3/videos"@,
            query: seq![
                ("part"@, "snippet,status,topicDetails,recordingDetails"@),
                ("key"@, api_key),
                ("id"@, ids),
            ],
            json_headers: true,
        }),
{
}

/// The location the service gives is the first element's `latitude` and
/// `longitude` (texts without surrounding quotes), with no description.
pub proof fn law_service_location_fields(body: Seq<char>)
    requires
        json_parses(body),
    ensures
        coordinates_location_of(body) == Some(
            LocationView {
                latitude: strip_quotes(json_text(body, seq![JsonStepView::Index(0), key("latitude"@)])),
                longitude: strip_quotes(json_text(body, seq![JsonStepView::Index(0), key("longitude"@)])),
                description: "null"@,
            },
        ),
{
}

/// Each text in double quotes, as serde_json writes a string without escapes.
pub open spec fn quoted_all(ids: Seq<Seq<char>>) -> Seq<Seq<char>> {
    ids.map_values(|id: Seq<char>| seq!['"'] + id + seq!['"'])
}

/// The texts separated by commas.
pub open spec fn comma_separated(ids: Seq<Seq<char>>) -> Seq<char> {
    if ids.len() == 0 {
        Seq::empty()
    } else {
        comma_terminated(ids.drop_last()) + ids.last()
    }
}

proof fn lemma_remove_char_concat(a: Seq<char>, b: Seq<char>, c: char)
    ensures
        remove_char(a + b, c) == remove_char(a, c) + remove_char(b, c),
    decreases b.len(),
{
    if b.len() == 0 {
        assert(a + b =~= a);
        assert(remove_char(a, c) + remove_char(b, c) =~= remove_char(a, c));
    } else {
        lemma_remove_char_concat(a, b.drop_last(), c);
        assert((a + b).drop_last() =~= a + b.drop_last());
        assert((a + b).last() == b.last());
        if b.last() == c {
        } else {
            assert(remove_char(a, c) + remove_char(b.drop_last(), c).push(b.last()) =~= (remove_char(a, c)
                + remove_char(b.drop_last(), c)).push(b.last()));
        }
    }
}

proof fn lemma_remove_char_absent(a: Seq<char>, c: char)
    requires
        forall|i: int| 0 <= i < a.len() ==> a[i] != c,
    ensures
        remove_char(a, c) == a,
    decreases a.len(),
{
    if a.len() > 0 {
        lemma_remove_char_absent(a.drop_last(), c);
        assert(a.drop_last().push(a.last()) =~= a);
    }
}

/// Both characters the id parameter drops.
pub open spec fn unquote(s: Seq<char>) -> Seq<char> {
    remove_char(remove_char(s, '"'), '\\')
}

pub open spec fn plain_id(id: Seq<char>) -> bool {
    forall|i: int| 0 <= i < id.len() ==> id[i] != '"' && id[i] != '\\'
}

proof fn lemma_unquote_concat(a: Seq<char>, b: Seq<char>)
    ensures
        unquote(a + b) == unquote(a) + unquote(b),
{
    lemma_remove_char_concat(a, b, '"');
    lemma_remove_char_concat(remove_char(a, '"'), remove_char(b, '"'), '\\');
}

proof fn lemma_unquote_quoted(id: Seq<char>)
    requires
        plain_id(id),
    ensures
        unquote(seq!['"'] + id + seq!['"']) == id,
        unquote(seq![',']) == seq![','],
{
    lemma_unquote_concat(seq!['"'] + id, seq!['"']);
    lemma_unquote_concat(seq!['"'], id);
    lemma_remove_char_absent(id, '"');
    lemma_remove_char_absent(id, '\\');
    assert(remove_char(seq!['"'], '"') =~= Seq::<char>::empty()) by {
        assert(seq!['"'].drop_last() =~= Seq::<char>::empty());
        reveal_with_fuel(remove_char, 2);
    }
    assert(remove_char(seq![','], '"') =~= seq![',']) by {
        assert(seq![','].drop_last() =~= Seq::<char>::empty());
        reveal_with_fuel(remove_char, 2);
        assert(Seq::<char>::empty().push(',') =~= seq![',']);
    }
    assert(remove_char(seq![','], '\\') =~= seq![',']) by {
        assert(seq![','].drop_last() =~= Seq::<char>::empty());
        reveal_with_fuel(remove_char, 2);
        assert(Seq::<char>::empty().push(',') =~= seq![',']);
    }
    assert(remove_char(Seq::<char>::empty(), '\\') =~= Seq::<char>::empty());
    assert(unquote(seq!['"']) =~= Seq::<char>::empty());
    assert(id + Seq::<char>::empty() =~= id);
    assert(Seq::<char>::empty() + id =~= id);
}

proof fn lemma_unquote_comma_terminated(ids: Seq<Seq<char>>)
    requires
        forall|i: int| 0 <= i < ids.len() ==> plain_id(#[trigger] ids[i]),
    ensures
        unquote(comma_terminated(quoted_all(ids))) == comma_terminated(ids),
    decreases ids.len(),
{
    let q = quoted_all(ids);
    if ids.len() == 0 {
        assert(unquote(Seq::<char>::empty()) =~= Seq::<char>::empty());
    } else {
        assert(q.drop_last() =~= quoted_all(ids.drop_last()));
        lemma_unquote_comma_terminated(ids.drop_last());
        lemma_unquote_concat(comma_terminated(q.drop_last()) + q.last(), seq![',']);
        lemma_unquote_concat(comma_terminated(q.drop_last()), q.last());
        assert(plain_id(ids.last()));
        lemma_unquote_quoted(ids.last());
    }
}

/// The `id` parameter of a page whose video ids are plain strings (no double
/// quotes or backslashes) lists exactly those ids, separated by commas.
#[verifier::rlimit(30)]
pub proof fn law_ids_parameter_lists_the_ids(ids: Seq<Seq<char>>)
    requires
        forall|i: int| 0 <= i < ids.len() ==> plain_id(#[trigger] ids[i]),
    ensures
        ids_parameter(quoted_all(ids)) == comma_separated(ids),
{
    let q = quoted_all(ids);
    if ids.len() == 0 {
        assert(q =~= Seq::<Seq<char>>::empty());
        assert(trim_end_char(Seq::<char>::empty(), ',') =~= Seq::<char>::empty());
        assert(unquote(Seq::<char>::empty()) =~= Seq::<char>::empty());
    } else {
        let front = comma_terminated(q.drop_last()) + q.last();
        assert(comma_terminated(q) == front + seq![',']);
        assert((front + seq![',']).drop_last() =~= front);
        assert(front.last() == '"');
        assert(trim_end_char(front, ',') == front);
        assert(trim_end_char(comma_terminated(q), ',') == front);
        assert(q.drop_last() =~= quoted_all(ids.drop_last()));
        lemma_unquote_comma_terminated(ids.drop_last());
        lemma_unquote_concat(comma_terminated(q.drop_last()), q.last());
        assert(plain_id(ids.last()));
        lemma_unquote_quoted(ids.last());
    }
}

} // verus!
