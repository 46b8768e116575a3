//! The YouTube Data API client: URL checks, the map color of a channel, and
//! reading the channel and video responses.

use vstd::prelude::*;
use vstd::string::*;
use crate::clock::{in_chrono_range, now_millis};
use crate::playlist::PlaylistLoader;
use crate::json::{
    json_array_len, json_array_len_at, json_parses, json_text, json_text_at, key, key_step,
    parse_json, path1, path2, path2_index, path3, path4, steps_view, JsonStep, JsonStepView,
    ParsedJson,
};
use crate::model::{topics_view, Channel, ChannelView, YoutubeTopic, YoutubeTopicView};
use crate::request::{HttpRequest, HttpRequestView};
use crate::text::{
    chars_equal, chars_of, contains_chars, opt_text, contains_seq, parse_bool_chars, parse_bool_spec,
    parse_u32_chars, parse_u32_spec, remove_char, remove_char_chars, split_last,
    split_last_chars, string_from_chars, strip_quotes, upper_hex, upper_hex_u8,
};
use rand::Rng;
use url::ParseError as UrlError;

verus! {

/// Holds the API key that every YouTube Data API request carries.
pub struct YoutubeApi {
    api_key: String,
}

/// Why a URL could not be parsed (the url crate's `ParseError` kinds).
#[derive(Debug, PartialEq, Eq, Structural)]
pub enum UrlParseError {
    EmptyHost,
    IdnaError,
    InvalidPort,
    InvalidIpv4Address,
    InvalidIpv6Address,
    InvalidDomainCharacter,
    RelativeUrlWithoutBase,
    RelativeUrlWithCannotBeABaseBase,
    SetHostOnCannotBeABaseUrl,
    Overflow,
    Other,
}

/// What the url crate's `Url::parse` gives for a text: the URL's host
/// (`host_str`), or why it is not a URL.
pub uninterp spec fn url_parse(s: Seq<char>) -> Result<Option<Seq<char>>, UrlParseError>;

/// The url crate's `Url::parse`, keeping the parsed URL's `host_str`, with
/// its error mapped kind for kind; the result is `url_parse` of the text.
#[verifier::external_body]
fn parse_url_host(s: &str) -> (r: Result<Option<String>, UrlParseError>)
    ensures
        match r {
            Ok(h) => url_parse(s@) == Ok::<Option<Seq<char>>, UrlParseError>(opt_text(h)),
            Err(e) => url_parse(s@) == Err::<Option<Seq<char>>, UrlParseError>(e),
        },
{
    match url::Url::parse(s) {
        Ok(u) => Ok(u.host_str().map(|h| h.to_string())),
        Err(UrlError::EmptyHost) => Err(UrlParseError::EmptyHost),
        Err(UrlError::IdnaError) => Err(UrlParseError::IdnaError),
        Err(UrlError::InvalidPort) => Err(UrlParseError::InvalidPort),
        Err(UrlError::InvalidIpv4Address) => Err(UrlParseError::InvalidIpv4Address),
        Err(UrlError::InvalidIpv6Address) => Err(UrlParseError::InvalidIpv6Address),
        Err(UrlError::InvalidDomainCharacter) => Err(UrlParseError::InvalidDomainCharacter),
        Err(UrlError::RelativeUrlWithoutBase) => Err(UrlParseError::RelativeUrlWithoutBase),
        Err(UrlError::RelativeUrlWithCannotBeABaseBase) => Err(UrlParseError::RelativeUrlWithCannotBeABaseBase),
        Err(UrlError::SetHostOnCannotBeABaseUrl) => Err(UrlParseError::SetHostOnCannotBeABaseUrl),
        Err(UrlError::Overflow) => Err(UrlParseError::Overflow),
        Err(_) => Err(UrlParseError::Other),
    }
}

/// A fresh random byte (rand's `thread_rng().gen_range(0..=255)`); any value
/// may come back.
#[verifier::external_body]
fn random_byte() -> (r: u8) {
    rand::thread_rng().gen_range(0..=255)
}

/// A color is bright enough for the map when one of its components is above 145.
pub open spec fn is_bright_enough(r: u8, g: u8, b: u8) -> bool {
    r > 145 || g > 145 || b > 145
}

/// `#` followed by each component in upper-case hexadecimal, without padding.
pub open spec fn color_text(r: u8, g: u8, b: u8) -> Seq<char> {
    seq!['#'] + upper_hex(r as nat) + upper_hex(g as nat) + upper_hex(b as nat)
}

/// How many draws `get_random_hex` makes before settling on white.
pub const COLOR_DRAW_LIMIT: u64 = 0xffff_ffff_ffff_ffff;

impl YoutubeApi {
    pub fn new(api_key: String) -> (api: YoutubeApi)
        ensures
            api.api_key() == api_key,
    {
        YoutubeApi { api_key }
    }

    /// The API key.
    pub closed spec fn api_key(&self) -> String {
        self.api_key
    }

    /// The text of a JSON value without its surrounding quotes.
    pub fn rem_first_and_last(value: &str) -> (r: &str)
        ensures
            r@ == strip_quotes(value@),
    {
        let n = value.unicode_len();
        if n >= 2 && value.get_char(0) == '"' && value.get_char(n - 1) == '"' {
            value.substring_char(1, n - 1)
        } else if n == 1 && value.get_char(0) == '"' {
            assert(value@ =~= seq!['"']);
            value.substring_char(0, 0)
        } else {
            proof {
                if value@ == seq!['"'] {
                    assert(value@[0] == '"');
                }
            }
            value
        }
    }

    /// The map color `#RRGGBB` (components without padding) of the three
    /// components.
    pub fn hex_color(r: u8, g: u8, b: u8) -> (s: String)
        ensures
            s@ == color_text(r, g, b),
    {
        let mut v: Vec<char> = Vec::new();
        v.push('#');
        let mut hr = upper_hex_u8(r);
        let mut hg = upper_hex_u8(g);
        let mut hb = upper_hex_u8(b);
        v.append(&mut hr);
        v.append(&mut hg);
        v.append(&mut hb);
        assert(v@ =~= color_text(r, g, b));
        string_from_chars(v.as_slice())
    }

    /// A random map color that is bright enough: components are drawn until
    /// one of them is above 145.
    pub fn get_random_hex() -> (s: String)
        ensures
            exists|r: u8, g: u8, b: u8| is_bright_enough(r, g, b) && s@ == color_text(r, g, b),
    {
        let mut num1 = random_byte();
        let mut num2 = random_byte();
        let mut num3 = random_byte();
        let mut draws: u64 = 1;
        while !(num1 > 145 || num2 > 145 || num3 > 145) && draws < COLOR_DRAW_LIMIT
            invariant
                draws <= COLOR_DRAW_LIMIT,
            decreases COLOR_DRAW_LIMIT - draws,
        {
            num1 = random_byte();
            num2 = random_byte();
            num3 = random_byte();
            draws = draws + 1;
        }
        if !(num1 > 145 || num2 > 145 || num3 > 145) {
            num1 = 255;
            num2 = 255;
            num3 = 255;
        }
        let s = Self::hex_color(num1, num2, num3);
        assert(is_bright_enough(num1, num2, num3) && s@ == color_text(num1, num2, num3));
        s
    }

    /// Whether `channel_url` is a URL on the host `www.youtube.com`; the url
    /// crate's parse error when it is not a URL.
    pub fn check_url(&self, channel_url: &String) -> (r: Result<bool, UrlParseError>)
        ensures
            match url_parse(channel_url@) {
                Ok(host) => r == Ok::<bool, UrlParseError>(host == Some("www.youtube.com"@)),
                Err(e) => r == Err::<bool, UrlParseError>(e),
            },
    {
        match parse_url_host(channel_url.as_str()) {
            Ok(Some(host)) => {
                let h = chars_of(host.as_str());
                let expected = chars_of("www.youtube.com");
                Ok(chars_equal(h.as_slice(), expected.as_slice()))
            },
            Ok(None) => Ok(false),
            Err(e) => Err(e),
        }
    }
}

/// The parts of a channel that the channel request asks for.
pub open spec fn channel_parts() -> Seq<char> {
    "contentDetails,brandingSettings,contentOwnerDetails,localizations,snippet,statistics,status,topicDetails"@
}

/// How a channel URL names its channel: after the last `/channel/` when the
/// URL holds one (the name is then a channel id, `true`), otherwise after the
/// last `/c/` (a user name, `false`).
pub open spec fn channel_identifier_of(url: Seq<char>) -> (Seq<char>, bool) {
    if contains_seq(url, "/channel/"@) {
        (split_last(url, "/channel/"@), true)
    } else {
        (split_last(url, "/c/"@), false)
    }
}

/// The channels request that names the channel by the parameter `by`.
pub open spec fn channel_query_of(api_key: Seq<char>, by: Seq<char>, name: Seq<char>) -> HttpRequestView {
    HttpRequestView {
        url: "https://youtube.googleapis.com/youtube/v3/channels"@,
        query: seq![("part"@, channel_parts()), ("key"@, api_key), (by, name)],
        json_headers: true,
    }
}

/// The request for the channel that `url` names: by `id` for a channel id,
/// by `forUsername` otherwise.
pub open spec fn channel_request_of(api_key: Seq<char>, url: Seq<char>) -> HttpRequestView {
    let (name, is_id) = channel_identifier_of(url);
    channel_query_of(api_key, if is_id { "id"@ } else { "forUsername"@ }, name)
}

/// The request for the channel with the channel id `id`.
pub open spec fn channel_request_for_id(api_key: Seq<char>, id: Seq<char>) -> HttpRequestView {
    channel_query_of(api_key, "id"@, id)
}

/// The response can be read as a channel: it is JSON and its subscriber and
/// video counts can be read.
pub open spec fn channel_response_readable(body: Seq<char>) -> bool {
    json_parses(body) && subscriber_count_of(body) is Some && video_count_of(body) is Some
}

/// A path into the first element of the response's `items`.
pub open spec fn first_item(tail: Seq<JsonStepView>) -> Seq<JsonStepView> {
    seq![key("items"@), JsonStepView::Index(0)] + tail
}

/// The JSON text at `tail` in the first item, without surrounding quotes.
pub open spec fn item_field(body: Seq<char>, tail: Seq<JsonStepView>) -> Seq<char> {
    strip_quotes(json_text(body, first_item(tail)))
}

/// The subscriber count of a channel response: the JSON text of
/// `statistics.subscriberCount` without double quotes, 0 for `null`, `None`
/// when it is neither `null` nor a `u32`.
pub open spec fn subscriber_count_of(body: Seq<char>) -> Option<u32> {
    let t = remove_char(
        json_text(body, first_item(seq![key("statistics"@), key("subscriberCount"@)])),
        '"',
    );
    if t == "null"@ {
        Some(0)
    } else {
        parse_u32_spec(t)
    }
}

/// How many of the channel's videos are loaded: its `statistics.videoCount`
/// (double quotes removed), at most 20; `None` when that is not a `u32`.
pub open spec fn video_count_of(body: Seq<char>) -> Option<u32> {
    let t = remove_char(
        json_text(body, first_item(seq![key("statistics"@), key("videoCount"@)])),
        '"',
    );
    match parse_u32_spec(t) {
        Some(n) => Some(if n > 20 { 20 } else { n }),
        None => None,
    }
}

/// The channel's topics: for each element of `topicDetails.topicIds` (none
/// when it is not an array), its JSON text and the JSON text of the element
/// of `topicDetails.topicCategories` at the same position.
pub open spec fn channel_topics_of(body: Seq<char>) -> Seq<YoutubeTopicView> {
    let n = match json_array_len(body, first_item(seq![key("topicDetails"@), key("topicIds"@)])) {
        Some(n) => n,
        None => 0,
    };
    Seq::new(
        n,
        |i: int|
            YoutubeTopicView {
                topic_id: json_text(
                    body,
                    first_item(seq![key("topicDetails"@), key("topicIds"@), JsonStepView::Index(i as nat)]),
                ),
                topic_url: json_text(
                    body,
                    first_item(
                        seq![key("topicDetails"@), key("topicCategories"@), JsonStepView::Index(i as nat)],
                    ),
                ),
            },
    )
}

/// `status.madeForKids` read as a boolean, `false` unless it is `true` or `false`.
pub open spec fn channel_made_for_kids_of(body: Seq<char>) -> bool {
    match parse_bool_spec(json_text(body, first_item(seq![key("status"@), key("madeForKids"@)]))) {
        Some(b) => b,
        None => false,
    }
}

/// The channel record that a channel response `body` describes, with the
/// given map color and fetch time, status `LOADING` and no videos yet;
/// `None` when its subscriber or video count cannot be read.
pub open spec fn channel_of_response(body: Seq<char>, color: Seq<char>, last_updated: i64) -> Option<ChannelView> {
    match (subscriber_count_of(body), video_count_of(body)) {
        (Some(subscribers), Some(videos)) => Some(
            ChannelView {
                channel_id: item_field(body, seq![key("id"@)]),
                channel_name: item_field(body, seq![key("snippet"@), key("title"@)]),
                channel_description: item_field(body, seq![key("snippet"@), key("description"@)]),
                channel_profil_image: item_field(
                    body,
                    seq![key("snippet"@), key("thumbnails"@), key("default"@), key("url"@)],
                ),
                channel_banner_image: item_field(
                    body,
                    seq![key("brandingSettings"@), key("image"@), key("bannerExternalUrl"@)],
                ),
                channel_country: item_field(body, seq![key("snippet"@), key("country"@)]),
                channel_uploads_playlist_id: item_field(
                    body,
                    seq![key("contentDetails"@), key("relatedPlaylists"@), key("uploads"@)],
                ),
                channel_subscriber_count: subscribers,
                channel_topics: channel_topics_of(body),
                channel_keywords: item_field(
                    body,
                    seq![key("brandingSettings"@), key("channel"@), key("keywords"@)],
                ),
                channel_trailer: item_field(
                    body,
                    seq![key("brandingSettings"@), key("channel"@), key("unsubscribedTrailer"@)],
                ),
                made_for_kids: channel_made_for_kids_of(body),
                status: "LOADING"@,
                videos: Seq::empty(),
                color: color,
                last_updated: last_updated,
                video_count: videos,
            },
        ),
        _ => None,
    }
}

/// `tail` prefixed with the steps into the first element of `items`.
fn first_item_path(tail: Vec<JsonStep>) -> (p: Vec<JsonStep>)
    ensures
        steps_view(p@) == first_item(steps_view(tail@)),
{
    let mut p: Vec<JsonStep> = Vec::new();
    p.push(key_step("items"));
    p.push(JsonStep::Index(0));
    let mut tail = tail;
    let ghost t = tail@;
    p.append(&mut tail);
    assert(steps_view(p@) =~= first_item(steps_view(t)));
    p
}

/// The JSON text at `tail` in the first item.
fn item_text_at(doc: &ParsedJson, tail: Vec<JsonStep>) -> (r: String)
    ensures
        r@ == json_text(doc@, first_item(steps_view(tail@))),
{
    let path = first_item_path(tail);
    json_text_at(doc, path.as_slice())
}

/// The JSON text at `tail` in the first item, without surrounding quotes.
fn item_field_at(doc: &ParsedJson, tail: Vec<JsonStep>) -> (r: String)
    ensures
        r@ == item_field(doc@, steps_view(tail@)),
{
    let t = item_text_at(doc, tail);
    String::from_str(YoutubeApi::rem_first_and_last(t.as_str()))
}

fn subscriber_count_at(doc: &ParsedJson) -> (r: Option<u32>)
    ensures
        r == subscriber_count_of(doc@),
{
    let t = item_text_at(doc, path2("statistics", "subscriberCount"));
    let tc = chars_of(t.as_str());
    let cleaned = remove_char_chars(tc.as_slice(), '"');
    let null = chars_of("null");
    if chars_equal(cleaned.as_slice(), null.as_slice()) {
        Some(0)
    } else {
        parse_u32_chars(cleaned.as_slice())
    }
}

fn video_count_at(doc: &ParsedJson) -> (r: Option<u32>)
    ensures
        r == video_count_of(doc@),
{
    let t = item_text_at(doc, path2("statistics", "videoCount"));
    let tc = chars_of(t.as_str());
    let cleaned = remove_char_chars(tc.as_slice(), '"');
    match parse_u32_chars(cleaned.as_slice()) {
        Some(n) => Some(if n > 20 { 20 } else { n }),
        None => None,
    }
}

fn channel_topics_at(doc: &ParsedJson) -> (r: Vec<YoutubeTopic>)
    ensures
        topics_view(r@) == channel_topics_of(doc@),
{
    let n = match json_array_len_at(
        doc,
        first_item_path(path2("topicDetails", "topicIds")).as_slice(),
    ) {
        Some(n) => n,
        None => 0,
    };
    let ghost want = channel_topics_of(doc@);
    assert(want.len() == n);
    let mut topics: Vec<YoutubeTopic> = Vec::new();
    let mut i: usize = 0;
    while i < n
        invariant
            i <= n,
            want == channel_topics_of(doc@),
            want.len() == n,
            topics_view(topics@) =~= want.take(i as int),
        decreases n - i,
    {
        let id = item_text_at(
            doc,
            path2_index("topicDetails", "topicIds", i),
        );
        let url = item_text_at(
            doc,
            path2_index("topicDetails", "topicCategories", i),
        );
        let ghost before = topics@;
        let topic = YoutubeTopic::new(id, url);
        assert(topic@ == want[i as int]);
        topics.push(topic);
        assert(topics_view(topics@) =~= topics_view(before).push(want[i as int]));
        assert(want.take(i + 1) =~= want.take(i as int).push(want[i as int]));
        i = i + 1;
    }
    assert(want.take(n as int) =~= want);
    topics
}

impl YoutubeApi {
    /// The channel name in `channel_url` and whether it is a channel id.
    pub fn channel_identifier(channel_url: &str) -> (r: (String, bool))
        ensures
            (r.0@, r.1) == channel_identifier_of(channel_url@),
    {
        proof {
            reveal_strlit("/channel/");
            reveal_strlit("/c/");
        }
        let url = chars_of(channel_url);
        let by_id = chars_of("/channel/");
        if contains_chars(url.as_slice(), by_id.as_slice()) {
            let name = split_last_chars(url.as_slice(), by_id.as_slice());
            (string_from_chars(name.as_slice()), true)
        } else {
            let custom = chars_of("/c/");
            let name = split_last_chars(url.as_slice(), custom.as_slice());
            (string_from_chars(name.as_slice()), false)
        }
    }

    /// The channels request naming the channel by the parameter `by`.
    fn channel_query(&self, by: String, name: String) -> (r: HttpRequest)
        ensures
            r@ == channel_query_of(self.api_key()@, by@, name@),
    {
        let mut query: Vec<(String, String)> = Vec::new();
        query.push((String::from_str("part"), String::from_str(
            "contentDetails,brandingSettings,contentOwnerDetails,localizations,snippet,statistics,status,topicDetails",
        )));
        query.push((String::from_str("key"), self.api_key.clone()));
        query.push((by, name));
        let r = HttpRequest {
            url: String::from_str("https://youtube.googleapis.com/youtube/v3/channels"),
            query,
            json_headers: true,
        };
        assert(r@.query =~= channel_query_of(self.api_key()@, r@.query[2].0, r@.query[2].1).query);
        r
    }

    /// The YouTube Data API request for the channel that `channel_url` names.
    pub fn channel_request(&self, channel_url: &String) -> (r: HttpRequest)
        ensures
            r@ == channel_request_of(self.api_key()@, channel_url@),
    {
        let (name, is_id) = Self::channel_identifier(channel_url.as_str());
        let by = if is_id { String::from_str("id") } else { String::from_str("forUsername") };
        self.channel_query(by, name)
    }

    /// The YouTube Data API request for the channel with the id `channel_id`.
    pub fn channel_request_by_id(&self, channel_id: &String) -> (r: HttpRequest)
        ensures
            r@ == channel_request_for_id(self.api_key()@, channel_id@),
    {
        self.channel_query(String::from_str("id"), channel_id.clone())
    }

    /// The loader for `open_video_amount` videos of the playlist, starting at
    /// the page `page_token` (`FIRST_PAGE` for the first page), with this API
    /// key, and its first request.
    pub fn get_playlist_videos(&self, playlist_id: &String, page_token: String, open_video_amount: u32) -> (r: (PlaylistLoader, HttpRequest))
        ensures
            (r.0@, r.1@) == crate::playlist::loader_start(
                self.api_key()@,
                playlist_id@,
                page_token@,
                open_video_amount,
            ),
    {
        PlaylistLoader::start(self.api_key.clone(), playlist_id.clone(), &page_token, open_video_amount)
    }

    /// Reads a channel response into a new channel record: a random map color
    /// is drawn and the current time is its fetch time. `None` exactly when
    /// the response cannot be read as a channel.
    pub fn channel_from_response(body: &str) -> (r: Option<Channel>)
        ensures
            r is Some <==> channel_response_readable(body@),
            r matches Some(c) ==> exists|red: u8, green: u8, blue: u8, t: i64|
                is_bright_enough(red, green, blue) && in_chrono_range(t) && channel_of_response(
                    body@,
                    color_text(red, green, blue),
                    t,
                ) == Some(c@),
    {
        match parse_json(body) {
            Some(doc) => {
                let color = Self::get_random_hex();
                let now = now_millis();
                let ghost cv = color@;
                let r = Self::channel_from_json(&doc, color, now);
                proof {
                    if r is Some {
                        assert(channel_of_response(body@, cv, now) == Some(r->0@));
                    }
                }
                r
            },
            None => None,
        }
    }

    /// The channel record described by a parsed channel response, with the
    /// given map color and fetch time; `None` when the subscriber or video
    /// count cannot be read.
    pub fn channel_from_json(doc: &ParsedJson, color: String, last_updated: i64) -> (r: Option<Channel>)
        ensures
            match channel_of_response(doc@, color@, last_updated) {
                Some(c) => r matches Some(ch) && ch@ == c,
                None => r is None,
            },
    {
        let subscribers = match subscriber_count_at(doc) {
            Some(n) => n,
            None => return None,
        };
        let topics = channel_topics_at(doc);
        let videos = match video_count_at(doc) {
            Some(n) => n,
            None => return None,
        };
        let kids_text = item_text_at(doc, path2("status", "madeForKids"));
        let kids_chars = chars_of(kids_text.as_str());
        let made_for_kids = match parse_bool_chars(kids_chars.as_slice()) {
            Some(b) => b,
            None => false,
        };
        let channel = Channel::new(
            item_field_at(doc, path1("id")),
            item_field_at(doc, path2("snippet", "title")),
            item_field_at(doc, path2("snippet", "description")),
            item_field_at(
                doc,
                path4("snippet", "thumbnails", "default", "url"),
            ),
            item_field_at(
                doc,
                path3("brandingSettings", "image", "bannerExternalUrl"),
            ),
            item_field_at(doc, path2("snippet", "country")),
            item_field_at(
                doc,
                path3("contentDetails", "relatedPlaylists", "uploads"),
            ),
            subscribers,
            topics,
            item_field_at(
                doc,
                path3("brandingSettings", "channel", "keywords"),
            ),
            item_field_at(
                doc,
                path3("brandingSettings", "channel", "unsubscribedTrailer"),
            ),
            made_for_kids,
            String::from_str("LOADING"),
            Vec::new(),
            color,
            last_updated,
            videos,
        );
        assert(crate::model::videos_view(channel.videos@) =~= Seq::<crate::model::VideoView>::empty());
        Some(channel)
    }
}



/// Removing the quotes of a quoted text gives the text back.
pub proof fn law_strip_quotes_of_quoted(s: Seq<char>)
    ensures
        strip_quotes(seq!['"'] + s + seq!['"']) == s,
{
    let q = seq!['"'] + s + seq!['"'];
    assert(q.subrange(1, q.len() - 1) =~= s);
}

/// A text that does not start with a quote is kept as it is (JSON `null`,
/// numbers, booleans).
pub proof fn law_strip_quotes_keeps_unquoted(s: Seq<char>)
    requires
        s.len() == 0 || s[0] != '"',
    ensures
        strip_quotes(s) == s,
{
}

/// A map color is `#` followed by two to six upper-case hexadecimal digits.
pub proof fn law_color_shape(r: u8, g: u8, b: u8)
    ensures
        color_text(r, g, b)[0] == '#',
        4 <= color_text(r, g, b).len() <= 7,
        forall|i: int|
            1 <= i < color_text(r, g, b).len() ==> ('0' <= #[trigger] color_text(r, g, b)[i] <= '9'
                || 'A' <= color_text(r, g, b)[i] <= 'F'),
{
    lemma_hex_digits(r as nat);
    lemma_hex_digits(g as nat);
    lemma_hex_digits(b as nat);
    let c = color_text(r, g, b);
    let hr = upper_hex(r as nat);
    let hg = upper_hex(g as nat);
    let hb = upper_hex(b as nat);
    assert forall|i: int| 1 <= i < c.len() implies ('0' <= #[trigger] c[i] <= '9' || 'A' <= c[i] <= 'F') by {
        if i < 1 + hr.len() {
            assert(c[i] == hr[i - 1]);
        } else if i < 1 + hr.len() + hg.len() {
            assert(c[i] == hg[i - 1 - hr.len()]);
        } else {
            assert(c[i] == hb[i - 1 - hr.len() - hg.len()]);
        }
    }
}

proof fn lemma_hex_digits(n: nat)
    requires
        n < 256,
    ensures
        1 <= upper_hex(n).len() <= 2,
        forall|i: int|
            0 <= i < upper_hex(n).len() ==> ('0' <= #[trigger] upper_hex(n)[i] <= '9' || 'A'
                <= upper_hex(n)[i] <= 'F'),
{
    if n >= 16 {
        assert(upper_hex(n / 16) == seq![crate::text::hex_digit(n / 16)]);
    }
}

/// A channel read from a response is loading, has no videos yet, carries the
/// given color and fetch time, and loads at most 20 videos.
pub proof fn law_new_channel_record(body: Seq<char>, color: Seq<char>, last_updated: i64)
    requires
        channel_of_response(body, color, last_updated) is Some,
    ensures
        ({
            let c = channel_of_response(body, color, last_updated)->0;
            &&& c.status == "LOADING"@
            &&& c.videos.len() == 0
            &&& c.color == color
            &&& c.last_updated == last_updated
            &&& c.video_count <= 20
        }),
{
}

/// The text at `tail` in the first element of `items`, without surrounding
/// quotes, read along the JSON path itself.
pub open spec fn first_item_text(body: Seq<char>, tail: Seq<JsonStepView>) -> Seq<char> {
    strip_quotes(json_text(body, seq![key("items"@), JsonStepView::Index(0)] + tail))
}

/// Every field of a channel read from a response comes from the first
/// element of its `items`, at the member the field names: the texts without
/// surrounding quotes; the subscriber count from `statistics.subscriberCount`
/// (0 for `null`); one topic per element of `topicDetails.topicIds`, paired
/// with the element of `topicDetails.topicCategories` at the same position;
/// made-for-kids from `status.madeForKids` (false unless it is `true` or
/// `false`); and the video count from `statistics.videoCount`, at most 20.
pub proof fn law_channel_fields_come_from_first_item(body: Seq<char>, color: Seq<char>, last_updated: i64)
    requires
        channel_of_response(body, color, last_updated) is Some,
    ensures
        ({
            let c = channel_of_response(body, color, last_updated)->0;
            let item = seq![key("items"@), JsonStepView::Index(0)];
            let subscribers = remove_char(
                json_text(body, item + seq![key("statistics"@), key("subscriberCount"@)]),
                '"',
            );
            let videos = remove_char(json_text(body, item + seq![key("statistics"@), key("videoCount"@)]), '"');
            let topic_ids = item + seq![key("topicDetails"@), key("topicIds"@)];
            let kids = parse_bool_spec(json_text(body, item + seq![key("status"@), key("madeForKids"@)]));
            &&& c.channel_id == first_item_text(body, seq![key("id"@)])
            &&& c.channel_name == first_item_text(body, seq![key("snippet"@), key("title"@)])
            &&& c.channel_description == first_item_text(body, seq![key("snippet"@), key("description"@)])
            &&& c.channel_profil_image == first_item_text(
                body,
                seq![key("snippet"@), key("thumbnails"@), key("default"@), key("url"@)],
            )
            &&& c.channel_banner_image == first_item_text(
                body,
                seq![key("brandingSettings"@), key("image"@), key("bannerExternalUrl"@)],
            )
            &&& c.channel_country == first_item_text(body, seq![key("snippet"@), key("country"@)])
            &&& c.channel_uploads_playlist_id == first_item_text(
                body,
                seq![key("contentDetails"@), key("relatedPlaylists"@), key("uploads"@)],
            )
            &&& c.channel_keywords == first_item_text(
                body,
                seq![key("brandingSettings"@), key("channel"@), key("keywords"@)],
            )
            &&& c.channel_trailer == first_item_text(
                body,
                seq![key("brandingSettings"@), key("channel"@), key("unsubscribedTrailer"@)],
            )
            &&& subscribers == "null"@ ==> c.channel_subscriber_count == 0
            &&& subscribers != "null"@ ==> parse_u32_spec(subscribers) == Some(c.channel_subscriber_count)
            &&& c.channel_topics.len() == (match json_array_len(body, topic_ids) {
                Some(n) => n,
                None => 0,
            })
            &&& forall|j: int|
                0 <= j < c.channel_topics.len() ==> #[trigger] c.channel_topics[j] == YoutubeTopicView {
                    topic_id: json_text(body, topic_ids.push(JsonStepView::Index(j as nat))),
                    topic_url: json_text(
                        body,
                        item + seq![key("topicDetails"@), key("topicCategories"@), JsonStepView::Index(j as nat)],
                    ),
                }
            &&& kids matches Some(b) ==> c.made_for_kids == b
            &&& kids is None ==> !c.made_for_kids
            &&& parse_u32_spec(videos) matches Some(n) && c.video_count == (if n > 20 { 20 } else { n })
        }),
{
    let item = seq![key("items"@), JsonStepView::Index(0)];
    assert(first_item(seq![key("status"@), key("madeForKids"@)]) =~= item + seq![key("status"@), key("madeForKids"@)]);
    assert(first_item(seq![key("statistics"@), key("subscriberCount"@)]) =~= item + seq![
        key("statistics"@),
        key("subscriberCount"@),
    ]);
    assert(first_item(seq![key("statistics"@), key("videoCount"@)]) =~= item + seq![key("statistics"@), key("videoCount"@)]);
    assert(first_item(seq![key("topicDetails"@), key("topicIds"@)]) =~= item + seq![key("topicDetails"@), key("topicIds"@)]);
    let c = channel_of_response(body, color, last_updated)->0;
    assert forall|j: int| 0 <= j < c.channel_topics.len() implies #[trigger] c.channel_topics[j] == YoutubeTopicView {
        topic_id: json_text(body, (item + seq![key("topicDetails"@), key("topicIds"@)]).push(JsonStepView::Index(j as nat))),
        topic_url: json_text(
            body,
            item + seq![key("topicDetails"@), key("topicCategories"@), JsonStepView::Index(j as nat)],
        ),
    } by {
        assert(first_item(seq![key("topicDetails"@), key("topicIds"@), JsonStepView::Index(j as nat)])
            =~= (item + seq![key("topicDetails"@), key("topicIds"@)]).push(JsonStepView::Index(j as nat)));
        assert(first_item(seq![key("topicDetails"@), key("topicCategories"@), JsonStepView::Index(j as nat)])
            =~= item + seq![key("topicDetails"@), key("topicCategories"@), JsonStepView::Index(j as nat)]);
    }
    let tails: Seq<Seq<JsonStepView>> = seq![
        seq![key("id"@)],
        seq![key("snippet"@), key("title"@)],
        seq![key("snippet"@), key("description"@)],
        seq![key("snippet"@), key("thumbnails"@), key("default"@), key("url"@)],
        seq![key("brandingSettings"@), key("image"@), key("bannerExternalUrl"@)],
        seq![key("snippet"@), key("country"@)],
        seq![key("contentDetails"@), key("relatedPlaylists"@), key("uploads"@)],
        seq![key("brandingSettings"@), key("channel"@), key("keywords"@)],
        seq![key("brandingSettings"@), key("channel"@), key("unsubscribedTrailer"@)],
    ];
    assert forall|t: int| 0 <= t < tails.len() implies item_field(body, #[trigger] tails[t]) == first_item_text(body, tails[t]) by {
        assert(first_item(tails[t]) =~= item + tails[t]);
    }
    assert(item_field(body, tails[0]) == first_item_text(body, tails[0]));
    assert(item_field(body, tails[1]) == first_item_text(body, tails[1]));
    assert(item_field(body, tails[2]) == first_item_text(body, tails[2]));
    assert(item_field(body, tails[3]) == first_item_text(body, tails[3]));
    assert(item_field(body, tails[4]) == first_item_text(body, tails[4]));
    assert(item_field(body, tails[5]) == first_item_text(body, tails[5]));
    assert(item_field(body, tails[6]) == first_item_text(body, tails[6]));
    assert(item_field(body, tails[7]) == first_item_text(body, tails[7]));
    assert(item_field(body, tails[8]) == first_item_text(body, tails[8]));
}

/// A channel is asked for by its id at the channels endpoint, with every
/// part of the channel and the API key; a channel URL names its channel by
/// the id after its last `/channel/`, or else by the user name after its
/// last `/c/`.
pub proof fn law_channel_requests(api_key: Seq<char>, id: Seq<char>, url: Seq<char>)
    ensures
        channel_request_for_id(api_key, id) == (HttpRequestView {
            url: "https://youtube.googleapis.com/youtube/v3/channels"@,
            query: seq![
                ("part"@, "contentDetails,brandingSettings,contentOwnerDetails,localizations,snippet,statistics,status,topicDetails"@),
                ("key"@, api_key),
                ("id"@, id),
            ],
            json_headers: true,
        }),
        channel_request_of(api_key, url) == (HttpRequestView {
            url: "https://youtube.googleapis.com/youtube/v3/channels"@,
            query: seq![
                ("part"@, "contentDetails,brandingSettings,contentOwnerDetails,localizations,snippet,statistics,status,topicDetails"@),
                ("key"@, api_key),
                if contains_seq(url, "/channel/"@) {
                    ("id"@, split_last(url, "/channel/"@))
                } else {
                    ("forUsername"@, split_last(url, "/c/"@))
                },
            ],
            json_headers: true,
        }),
{
}

} // verus!
