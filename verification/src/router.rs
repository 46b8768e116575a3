//! Serving channel lookups: a stored channel is served while it is fresh,
//! otherwise (or when none is stored) the channel is fetched from YouTube,
//! stored, its videos are loaded in the background, and the stored record is
//! served.
//!
//! Each lookup is a `ChannelRoute`: it names the next step for its caller to
//! perform (a database lookup, a page or API request, storing a channel, a
//! reply) and is told the outcome.

use vstd::prelude::*;
use vstd::string::*;
use crate::clock::{
    div_toward_zero, in_chrono_range, now_millis, whole_days_between, CHRONO_MAX_MILLIS,
    CHRONO_MIN_MILLIS, MILLIS_PER_DAY,
};
use crate::model::{Channel, ChannelView};
use crate::request::{HttpRequest, HttpRequestView};
use crate::text::{
    chars_equal, chars_of, contains_seq, law_split_last_after_last_separator, occurs_at, opt_text,
    split_last, split_last_chars, string_from_chars,
};
use crate::youtube_api::{
    channel_of_response, channel_request_for_id, channel_response_readable, color_text,
    is_bright_enough, YoutubeApi,
};

verus! {

/// An instant clamped into the range chrono represents (as bson's
/// `DateTime::to_chrono` does).
pub open spec fn clamp_to_chrono(ms: i64) -> i64 {
    if ms < CHRONO_MIN_MILLIS {
        CHRONO_MIN_MILLIS
    } else if ms > CHRONO_MAX_MILLIS {
        CHRONO_MAX_MILLIS
    } else {
        ms
    }
}

/// At `now`, `last_updated` lies at most 7 whole days back.
pub open spec fn recently_updated_at(last_updated: i64, now: i64) -> bool {
    div_toward_zero(now - clamp_to_chrono(last_updated), MILLIS_PER_DAY as int) <= 7
}

/// Whether at `now` the instant `last_updated` lies at most 7 whole days back.
pub fn updated_within_week_at(last_updated: i64, now: i64) -> (r: bool)
    requires
        in_chrono_range(now),
    ensures
        r == recently_updated_at(last_updated, now),
{
    let clamped = if last_updated < CHRONO_MIN_MILLIS {
        CHRONO_MIN_MILLIS
    } else if last_updated > CHRONO_MAX_MILLIS {
        CHRONO_MAX_MILLIS
    } else {
        last_updated
    };
    whole_days_between(now, clamped) <= 7
}

/// Whether `last_updated` lies at most 7 whole days back from now.
pub fn was_in_the_last_7_days(last_updated: i64) -> (r: bool)
    ensures
        exists|now: i64| in_chrono_range(now) && r == recently_updated_at(last_updated, now),
{
    let now = now_millis();
    updated_within_week_at(last_updated, now)
}

/// What a lookup needs to know of a stored channel.
pub struct StoredChannel {
    pub status: String,
    pub last_updated: i64,
}

pub struct StoredChannelView {
    pub status: Seq<char>,
    pub last_updated: i64,
}

impl View for StoredChannel {
    type V = StoredChannelView;

    open spec fn view(&self) -> StoredChannelView {
        StoredChannelView { status: self.status@, last_updated: self.last_updated }
    }
}

pub open spec fn stored_view(o: Option<StoredChannel>) -> Option<StoredChannelView> {
    match o {
        Some(s) => Some(s@),
        None => None,
    }
}

/// A lookup goes to YouTube when nothing is stored, or when the stored channel
/// is older than a week and is not being loaded or updated.
pub open spec fn needs_refresh(stored: Option<StoredChannelView>, now: i64) -> bool {
    match stored {
        None => true,
        Some(s) => !recently_updated_at(s.last_updated, now) && s.status != "LOADING"@ && s.status
            != "UPDATING"@,
    }
}

/// Whether the lookup must go to YouTube at `now`.
pub fn needs_refresh_at(stored: &Option<StoredChannel>, now: i64) -> (r: bool)
    requires
        in_chrono_range(now),
    ensures
        r == needs_refresh(stored_view(*stored), now),
{
    match stored {
        None => true,
        Some(s) => {
            let status = chars_of(s.status.as_str());
            let loading = chars_of("LOADING");
            let updating = chars_of("UPDATING");
            !updated_within_week_at(s.last_updated, now) && !chars_equal(
                status.as_slice(),
                loading.as_slice(),
            ) && !chars_equal(status.as_slice(), updating.as_slice())
        },
    }
}

/// The pattern of a channel page's canonical link; `.` (at 28 and 36) stands
/// for any character but a newline.
pub open spec fn canonical_pattern() -> Seq<char> {
    "canonical\" href=\"https://www.youtube.com/channel/"@
}

pub open spec fn canonical_pattern_at(s: Seq<char>, i: int) -> bool {
    let p = canonical_pattern();
    0 <= i && i + p.len() <= s.len() && forall|k: int|
        0 <= k < p.len() ==> if k == 28 || k == 36 {
            #[trigger] s[i + k] != '\n'
        } else {
            s[i + k] == p[k]
        }
}

/// The end of the run of characters other than `"` starting at `j`.
pub open spec fn quote_free_end(s: Seq<char>, j: int) -> int
    decreases s.len() - j,
{
    if j < 0 || j >= s.len() || s[j] == '"' {
        j
    } else {
        quote_free_end(s, j + 1)
    }
}

/// The first match of the regular expression
/// `(canonical" href="https://www.youtube.com/channel/)[^"]*` in `s`: the
/// pattern at the first position where it occurs, followed by all characters
/// up to the next `"`.
pub open spec fn canonical_link_of(s: Seq<char>) -> Option<Seq<char>> {
    if exists|i: int| canonical_pattern_at(s, i) {
        let i = choose|i: int|
            canonical_pattern_at(s, i) && forall|j: int| 0 <= j < i ==> !canonical_pattern_at(s, j);
        Some(s.subrange(i, quote_free_end(s, i + canonical_pattern().len())))
    } else {
        None
    }
}

/// The regular expression of a channel page's canonical link.
pub open spec fn canonical_link_regex() -> Seq<char> {
    "(canonical\" href=\"https://www.youtube.com/channel/)[^\"]*"@
}

/// The regex crate's first match (`Regex::new`, then `captures`, group 0) of
/// `pattern`, which must be the canonical link's regular expression (a valid
/// one, so building it does not fail), in a page; the regex crate reports the
/// leftmost match, and `[^"]*` takes as many characters as it can.
#[verifier::external_body]
fn find_canonical_link(pattern: &str, page: &str) -> (r: Option<String>)
    requires
        pattern@ == canonical_link_regex(),
    ensures
        opt_text(r) == canonical_link_of(page@),
{
    let re = regex::Regex::new(pattern).unwrap();
    re.captures(page).and_then(|c| c.get(0)).map(|m| m.as_str().to_string())
}

/// The channel id a channel page names: empty when the page was not found,
/// otherwise what follows `/channel/` in its canonical link; `None` when the
/// page has no canonical link.
pub open spec fn page_channel_id(not_found: bool, body: Seq<char>) -> Option<Seq<char>> {
    if not_found {
        Some(Seq::empty())
    } else {
        match canonical_link_of(body) {
            Some(link) => Some(split_last(link, "/channel/"@)),
            None => None,
        }
    }
}

/// The channel id that a fetched channel page names.
pub fn channel_id_from_page(not_found: bool, body: &str) -> (r: Option<String>)
    ensures
        opt_text(r) == page_channel_id(not_found, body@),
{
    if not_found {
        return Some(String::new());
    }
    match find_canonical_link("(canonical\" href=\"https://www.youtube.com/channel/)[^\"]*", body) {
        Some(link) => {
            proof {
                reveal_strlit("/channel/");
            }
            let chars = chars_of(link.as_str());
            let sep = chars_of("/channel/");
            let id = split_last_chars(chars.as_slice(), sep.as_slice());
            Some(string_from_chars(id.as_slice()))
        },
        None => None,
    }
}

/// Which lookup a route serves.
#[derive(Debug, PartialEq, Eq, Structural)]
pub enum RouteKind {
    /// `/channel/{param}`: by channel id.
    ById,
    /// `/c/{param}`: by custom URL name.
    ByCustomUrl,
    /// `/{param}`: by user name.
    ByUsername,
}

/// How a route fetches the channel when it must: by the channel request for
/// a channel id, or first through the channel page at a URL.
pub enum FetchPlanView {
    Channel(Seq<char>),
    ChannelPage(Seq<char>),
}

pub enum RouteStageView {
    /// A stored channel was looked up; `plan` is followed when it must be refreshed.
    AwaitLookup { plan: FetchPlanView },
    /// A channel page was requested; its id is then looked up (`then_lookup`)
    /// or fetched, to replace a stored channel (`replace`) or to be stored anew.
    AwaitChannelPage { then_lookup: bool, replace: bool },
    /// The channel was requested from YouTube, to replace a stored channel
    /// (`replace`) or to be stored anew.
    AwaitChannel { replace: bool },
    /// The fetched channel is being stored.
    AwaitStore { channel_id: Seq<char> },
    /// The stored channel is looked up to be served.
    AwaitFinalLookup,
    /// The route has answered.
    Ended,
}

pub enum RouteActionView {
    LookupById(Seq<char>),
    LookupByCustomUrl(Seq<char>),
    FetchChannelPage(Seq<char>),
    FetchChannel(HttpRequestView),
    StoreAndLoadVideos(ChannelView),
    ReplaceAndLoadVideos(ChannelView),
    ServeStored,
    NotFound,
    Abort,
}

pub enum RouteEventView {
    Looked(Option<StoredChannelView>),
    ChannelPage { not_found: bool, body: Seq<char> },
    ChannelFetched(Seq<char>),
    Stored,
}

/// The URL of the channel page at `base` + `name` (its videos tab).
pub open spec fn channel_page_url(base: Seq<char>, name: Seq<char>) -> Seq<char> {
    base + name + "/videos"@
}

/// The first step of a route for `param`.
pub open spec fn route_start(kind: RouteKind, param: Seq<char>) -> (RouteStageView, RouteActionView) {
    match kind {
        RouteKind::ById => (
            RouteStageView::AwaitLookup { plan: FetchPlanView::Channel(param) },
            RouteActionView::LookupById(param),
        ),
        RouteKind::ByCustomUrl => (
            RouteStageView::AwaitLookup {
                plan: FetchPlanView::ChannelPage(channel_page_url("https://www.youtube.com/c/"@, param)),
            },
            RouteActionView::LookupByCustomUrl(param),
        ),
        RouteKind::ByUsername => (
            RouteStageView::AwaitChannelPage { then_lookup: true, replace: false },
            RouteActionView::FetchChannelPage(channel_page_url("https://www.youtube.com/"@, param)),
        ),
    }
}

/// The route's next step after `event`, at time `now` and with `color` for a
/// newly fetched channel.
pub open spec fn route_step(
    stage: RouteStageView,
    api_key: Seq<char>,
    event: RouteEventView,
    now: i64,
    color: Seq<char>,
) -> (RouteStageView, RouteActionView) {
    match (stage, event) {
        (RouteStageView::AwaitLookup { plan }, RouteEventView::Looked(stored)) => if needs_refresh(
            stored,
            now,
        ) {
            let replace = stored is Some;
            match plan {
                FetchPlanView::Channel(id) => (
                    RouteStageView::AwaitChannel { replace },
                    RouteActionView::FetchChannel(channel_request_for_id(api_key, id)),
                ),
                FetchPlanView::ChannelPage(url) => (
                    RouteStageView::AwaitChannelPage { then_lookup: false, replace },
                    RouteActionView::FetchChannelPage(url),
                ),
            }
        } else {
            (RouteStageView::Ended, RouteActionView::ServeStored)
        },
        (
            RouteStageView::AwaitChannelPage { then_lookup, replace },
            RouteEventView::ChannelPage { not_found, body },
        ) => match page_channel_id(not_found, body) {
            None => (RouteStageView::Ended, RouteActionView::Abort),
            Some(id) => if id.len() == 0 {
                (RouteStageView::Ended, RouteActionView::NotFound)
            } else if then_lookup {
                (
                    RouteStageView::AwaitLookup { plan: FetchPlanView::Channel(id) },
                    RouteActionView::LookupById(id),
                )
            } else {
                (
                    RouteStageView::AwaitChannel { replace },
                    RouteActionView::FetchChannel(channel_request_for_id(api_key, id)),
                )
            },
        },
        (RouteStageView::AwaitChannel { replace }, RouteEventView::ChannelFetched(body)) => if channel_response_readable(
            body,
        ) {
            let c = channel_of_response(body, color, now)->0;
            if c.channel_name.len() == 0 {
                (RouteStageView::Ended, RouteActionView::NotFound)
            } else if replace {
                (RouteStageView::AwaitStore { channel_id: c.channel_id }, RouteActionView::ReplaceAndLoadVideos(c))
            } else {
                (RouteStageView::AwaitStore { channel_id: c.channel_id }, RouteActionView::StoreAndLoadVideos(c))
            }
        } else {
            (RouteStageView::Ended, RouteActionView::Abort)
        },
        (RouteStageView::AwaitStore { channel_id }, RouteEventView::Stored) => (
            RouteStageView::AwaitFinalLookup,
            RouteActionView::LookupById(channel_id),
        ),
        (RouteStageView::AwaitFinalLookup, RouteEventView::Looked(_)) => (
            RouteStageView::Ended,
            RouteActionView::ServeStored,
        ),
        _ => (RouteStageView::Ended, RouteActionView::Abort),
    }
}

/// The replies a route can read at `stage`: a channel page that is either
/// missing or holds a canonical link, a channel response whose counts can be
/// read, and any lookup or store outcome that the stage waits for. On any
/// other event a route aborts.
pub open spec fn route_reply_readable(stage: RouteStageView, event: RouteEventView) -> bool {
    match (stage, event) {
        (RouteStageView::AwaitLookup { .. }, RouteEventView::Looked(_)) => true,
        (RouteStageView::AwaitChannelPage { .. }, RouteEventView::ChannelPage { not_found, body }) => page_channel_id(
            not_found,
            body,
        ) is Some,
        (RouteStageView::AwaitChannel { .. }, RouteEventView::ChannelFetched(body)) => channel_response_readable(body),
        (RouteStageView::AwaitStore { .. }, RouteEventView::Stored) => true,
        (RouteStageView::AwaitFinalLookup, RouteEventView::Looked(_)) => true,
        _ => false,
    }
}

/// How a route fetches the channel when it must.
pub enum FetchPlan {
    Channel(String),
    ChannelPage(String),
}

impl View for FetchPlan {
    type V = FetchPlanView;

    open spec fn view(&self) -> FetchPlanView {
        match self {
            FetchPlan::Channel(s) => FetchPlanView::Channel(s@),
            FetchPlan::ChannelPage(s) => FetchPlanView::ChannelPage(s@),
        }
    }
}

/// Where a route stands.
pub enum RouteStage {
    AwaitLookup { plan: FetchPlan },
    AwaitChannelPage { then_lookup: bool, replace: bool },
    AwaitChannel { replace: bool },
    AwaitStore { channel_id: String },
    AwaitFinalLookup,
    Ended,
}

impl View for RouteStage {
    type V = RouteStageView;

    open spec fn view(&self) -> RouteStageView {
        match self {
            RouteStage::AwaitLookup { plan } => RouteStageView::AwaitLookup { plan: plan@ },
            RouteStage::AwaitChannelPage { then_lookup, replace } => RouteStageView::AwaitChannelPage {
                then_lookup: *then_lookup,
                replace: *replace,
            },
            RouteStage::AwaitChannel { replace } => RouteStageView::AwaitChannel { replace: *replace },
            RouteStage::AwaitStore { channel_id } => RouteStageView::AwaitStore {
                channel_id: channel_id@,
            },
            RouteStage::AwaitFinalLookup => RouteStageView::AwaitFinalLookup,
            RouteStage::Ended => RouteStageView::Ended,
        }
    }
}

/// The next step for the caller of a route.
pub enum RouteAction {
    /// Look up the stored channel with this channel id.
    LookupById(String),
    /// Look up the stored channel with this custom URL name.
    LookupByCustomUrl(String),
    /// Fetch the channel page at this URL (a plain GET).
    FetchChannelPage(String),
    /// Send this YouTube Data API request.
    FetchChannel(HttpRequest),
    /// Store this channel, then load its videos in the background.
    StoreAndLoadVideos(Channel),
    /// Replace the stored channel with this id by this channel, then load its
    /// videos in the background.
    ReplaceAndLoadVideos(Channel),
    /// Reply with the document of the last lookup.
    ServeStored,
    /// Reply that the channel does not exist.
    NotFound,
    /// The request cannot be served: a response could not be read.
    Abort,
}

impl View for RouteAction {
    type V = RouteActionView;

    open spec fn view(&self) -> RouteActionView {
        match self {
            RouteAction::LookupById(s) => RouteActionView::LookupById(s@),
            RouteAction::LookupByCustomUrl(s) => RouteActionView::LookupByCustomUrl(s@),
            RouteAction::FetchChannelPage(s) => RouteActionView::FetchChannelPage(s@),
            RouteAction::FetchChannel(r) => RouteActionView::FetchChannel(r@),
            RouteAction::StoreAndLoadVideos(c) => RouteActionView::StoreAndLoadVideos(c@),
            RouteAction::ReplaceAndLoadVideos(c) => RouteActionView::ReplaceAndLoadVideos(c@),
            RouteAction::ServeStored => RouteActionView::ServeStored,
            RouteAction::NotFound => RouteActionView::NotFound,
            RouteAction::Abort => RouteActionView::Abort,
        }
    }
}

/// The outcome of a route's last step.
pub enum RouteEvent {
    /// The lookup found this channel, or nothing (an empty document).
    Looked(Option<StoredChannel>),
    /// The channel page was fetched: whether it answered 404, and its body.
    ChannelPage { not_found: bool, body: String },
    /// The YouTube Data API answered with this body.
    ChannelFetched(String),
    /// The channel was stored.
    Stored,
}

impl View for RouteEvent {
    type V = RouteEventView;

    open spec fn view(&self) -> RouteEventView {
        match self {
            RouteEvent::Looked(s) => RouteEventView::Looked(stored_view(*s)),
            RouteEvent::ChannelPage { not_found, body } => RouteEventView::ChannelPage {
                not_found: *not_found,
                body: body@,
            },
            RouteEvent::ChannelFetched(b) => RouteEventView::ChannelFetched(b@),
            RouteEvent::Stored => RouteEventView::Stored,
        }
    }
}

/// One channel lookup in progress.
pub struct ChannelRoute {
    stage: RouteStage,
}

impl View for ChannelRoute {
    type V = RouteStageView;

    closed spec fn view(&self) -> RouteStageView {
        self.stage@
    }
}

fn page_url(base: &str, name: &String) -> (r: String)
    ensures
        r@ == channel_page_url(base@, name@),
{
    let mut v = chars_of(base);
    let mut n = chars_of(name.as_str());
    let mut tail = chars_of("/videos");
    v.append(&mut n);
    v.append(&mut tail);
    string_from_chars(v.as_slice())
}

impl ChannelRoute {
    /// A route for `param` and its first step.
    pub fn start(kind: RouteKind, param: &String) -> (r: (ChannelRoute, RouteAction))
        ensures
            (r.0@, r.1@) == route_start(kind, param@),
    {
        match kind {
            RouteKind::ById => (
                ChannelRoute { stage: RouteStage::AwaitLookup { plan: FetchPlan::Channel(param.clone()) } },
                RouteAction::LookupById(param.clone()),
            ),
            RouteKind::ByCustomUrl => (
                ChannelRoute {
                    stage: RouteStage::AwaitLookup {
                        plan: FetchPlan::ChannelPage(page_url("https://www.youtube.com/c/", param)),
                    },
                },
                RouteAction::LookupByCustomUrl(param.clone()),
            ),
            RouteKind::ByUsername => (
                ChannelRoute { stage: RouteStage::AwaitChannelPage { then_lookup: true, replace: false } },
                RouteAction::FetchChannelPage(page_url("https://www.youtube.com/", param)),
            ),
        }
    }

    /// The route has answered.
    pub fn is_ended(&self) -> (r: bool)
        ensures
            r == (self@ is Ended),
    {
        match self.stage {
            RouteStage::Ended => true,
            _ => false,
        }
    }

    /// The route's next step after `event`, at time `now` and with `color`
    /// for a newly fetched channel.
    #[verifier::rlimit(40)]
    pub fn on_event_at(&mut self, api: &YoutubeApi, event: RouteEvent, now: i64, color: String) -> (r: RouteAction)
        requires
            in_chrono_range(now),
        ensures
            (final(self)@, r@) == route_step(old(self)@, api.api_key()@, event@, now, color@),
            r@ is Abort <==> !route_reply_readable(old(self)@, event@),
    {
        let mut stage = RouteStage::Ended;
        std::mem::swap(&mut stage, &mut self.stage);
        match (stage, event) {
            (RouteStage::AwaitLookup { plan }, RouteEvent::Looked(stored)) => {
                if needs_refresh_at(&stored, now) {
                    let replace = stored.is_some();
                    match plan {
                        FetchPlan::Channel(id) => {
                            self.stage = RouteStage::AwaitChannel { replace };
                            RouteAction::FetchChannel(api.channel_request_by_id(&id))
                        },
                        FetchPlan::ChannelPage(url) => {
                            self.stage = RouteStage::AwaitChannelPage { then_lookup: false, replace };
                            RouteAction::FetchChannelPage(url)
                        },
                    }
                } else {
                    RouteAction::ServeStored
                }
            },
            (RouteStage::AwaitChannelPage { then_lookup, replace }, RouteEvent::ChannelPage { not_found, body }) => {
                match channel_id_from_page(not_found, body.as_str()) {
                    None => RouteAction::Abort,
                    Some(id) => {
                        let id_chars = chars_of(id.as_str());
                        if id_chars.len() == 0 {
                            RouteAction::NotFound
                        } else if then_lookup {
                            self.stage = RouteStage::AwaitLookup { plan: FetchPlan::Channel(id.clone()) };
                            RouteAction::LookupById(id)
                        } else {
                            self.stage = RouteStage::AwaitChannel { replace };
                            RouteAction::FetchChannel(api.channel_request_by_id(&id))
                        }
                    },
                }
            },
            (RouteStage::AwaitChannel { replace }, RouteEvent::ChannelFetched(body)) => {
                let doc = match crate::json::parse_json(body.as_str()) {
                    Some(doc) => doc,
                    None => return RouteAction::Abort,
                };
                match YoutubeApi::channel_from_json(&doc, color, now) {
                    None => RouteAction::Abort,
                    Some(channel) => {
                        let name = chars_of(channel.channel_name.as_str());
                        if name.len() == 0 {
                            RouteAction::NotFound
                        } else {
                            self.stage = RouteStage::AwaitStore { channel_id: channel.channel_id.clone() };
                            if replace {
                                RouteAction::ReplaceAndLoadVideos(channel)
                            } else {
                                RouteAction::StoreAndLoadVideos(channel)
                            }
                        }
                    },
                }
            },
            (RouteStage::AwaitStore { channel_id }, RouteEvent::Stored) => {
                self.stage = RouteStage::AwaitFinalLookup;
                RouteAction::LookupById(channel_id)
            },
            (RouteStage::AwaitFinalLookup, RouteEvent::Looked(_)) => RouteAction::ServeStored,
            _ => RouteAction::Abort,
        }
    }

    /// The route's next step after `event`; a newly fetched channel gets a
    /// random bright color and the current time.
    pub fn on_event(&mut self, api: &YoutubeApi, event: RouteEvent) -> (r: RouteAction)
        ensures
            exists|now: i64, red: u8, green: u8, blue: u8|
                in_chrono_range(now) && is_bright_enough(red, green, blue) && (final(self)@, r@) == route_step(
                    old(self)@,
                    api.api_key()@,
                    event@,
                    now,
                    color_text(red, green, blue),
                ),
            r@ is Abort <==> !route_reply_readable(old(self)@, event@),
    {
        let color = YoutubeApi::get_random_hex();
        let now = now_millis();
        let ghost c = color@;
        let r = self.on_event_at(api, event, now, color);
        assert(exists|red: u8, green: u8, blue: u8| is_bright_enough(red, green, blue) && c == color_text(red, green, blue));
        r
    }
}



proof fn lemma_first_canonical_link_exists(s: Seq<char>, k: int)
    requires
        canonical_pattern_at(s, k),
    ensures
        exists|i: int| canonical_pattern_at(s, i) && forall|j: int| 0 <= j < i ==> !canonical_pattern_at(s, j),
    decreases k,
{
    if exists|j: int| 0 <= j < k && canonical_pattern_at(s, j) {
        let j = choose|j: int| 0 <= j < k && canonical_pattern_at(s, j);
        lemma_first_canonical_link_exists(s, j);
    } else {
        assert(canonical_pattern_at(s, k) && forall|j: int| 0 <= j < k ==> !canonical_pattern_at(s, j));
    }
}

proof fn lemma_quote_free_end_bounds(s: Seq<char>, j: int)
    requires
        0 <= j <= s.len(),
    ensures
        j <= quote_free_end(s, j) <= s.len(),
    decreases s.len() - j,
{
    if j < s.len() && s[j] != '"' {
        lemma_quote_free_end_bounds(s, j + 1);
    }
}

/// A canonical link names its channel after `/channel/`, which stands at
/// the same place in every match of the pattern.
proof fn lemma_canonical_link_holds_channel_segment(s: Seq<char>)
    ensures
        canonical_link_of(s) matches Some(link) ==> occurs_at(link, "/channel/"@, 40),
{
    if exists|i: int| canonical_pattern_at(s, i) {
        let k = choose|i: int| canonical_pattern_at(s, i);
        lemma_first_canonical_link_exists(s, k);
        let i = choose|i: int|
            canonical_pattern_at(s, i) && forall|j: int| 0 <= j < i ==> !canonical_pattern_at(s, j);
        reveal_strlit("canonical\" href=\"https://www.youtube.com/channel/");
        reveal_strlit("/channel/");
        let p = canonical_pattern();
        assert(p.len() == 49);
        lemma_quote_free_end_bounds(s, i + 49);
        let link = s.subrange(i, quote_free_end(s, i + 49));
        assert forall|m: int| 0 <= m < 9 implies link.subrange(40, 49)[m] == "/channel/"@[m] by {
            assert(link[40 + m] == s[i + 40 + m]);
            assert(s[i + (40 + m)] == p[40 + m]);
        }
        assert(link.subrange(40, 49) =~= "/channel/"@);
    }
}

/// The id a channel page names is the end of its canonical link after the
/// last `/channel/`, every character kept: the link ends with the id, the
/// id follows an occurrence of `/channel/` and holds none itself. A page
/// that was not found names the empty id, and a page without a canonical
/// link names none.
pub proof fn law_page_id_is_end_of_canonical_link(body: Seq<char>)
    ensures
        page_channel_id(true, body) == Some(Seq::<char>::empty()),
        canonical_link_of(body) is None ==> page_channel_id(false, body) is None,
        canonical_link_of(body) matches Some(link) ==> page_channel_id(false, body) matches Some(id) && {
            let k = link.len() - id.len();
            &&& 9 <= k <= link.len()
            &&& link.skip(k) == id
            &&& occurs_at(link, "/channel/"@, k - 9)
            &&& !contains_seq(id, "/channel/"@)
        },
{
    if let Some(link) = canonical_link_of(body) {
        lemma_canonical_link_holds_channel_segment(body);
        reveal_strlit("/channel/");
        assert(contains_seq(link, "/channel/"@));
        law_split_last_after_last_separator(link, "/channel/"@);
    }
}

/// A lookup by channel id or by custom URL first looks in the store under
/// the name it was given (keeping, for a custom URL, the channel page
/// `https://www.youtube.com/c/<name>/videos` to resolve the channel with); a
/// lookup by user name first fetches the page
/// `https://www.youtube.com/<name>/videos`.
pub proof fn law_route_first_steps(param: Seq<char>)
    ensures
        route_start(RouteKind::ById, param) == (
            RouteStageView::AwaitLookup { plan: FetchPlanView::Channel(param) },
            RouteActionView::LookupById(param),
        ),
        route_start(RouteKind::ByCustomUrl, param) == (
            RouteStageView::AwaitLookup {
                plan: FetchPlanView::ChannelPage("https://www.youtube.com/c/"@ + param + "/videos"@),
            },
            RouteActionView::LookupByCustomUrl(param),
        ),
        route_start(RouteKind::ByUsername, param) == (
            RouteStageView::AwaitChannelPage { then_lookup: true, replace: false },
            RouteActionView::FetchChannelPage("https://www.youtube.com/"@ + param + "/videos"@),
        ),
{
}

/// A stored channel counts as recent exactly while less than eight whole
/// days have passed since it was fetched (a fetch time in the future counts
/// as recent).
pub proof fn law_recent_means_under_eight_days(last_updated: i64, now: i64)
    requires
        in_chrono_range(last_updated),
    ensures
        recently_updated_at(last_updated, now) <==> now - last_updated < 8 * MILLIS_PER_DAY,
{
    let d: int = now - last_updated;
    if d >= 0 {
        assert(d / 86400000 <= 7 <==> d < 8 * 86400000) by (nonlinear_arith)
            requires
                d >= 0,
        ;
    } else {
        assert((-d) / 86400000 >= 0) by (nonlinear_arith)
            requires
                d < 0,
        ;
    }
}

/// A channel stored less than a week ago is served from the store, without
/// asking YouTube.
pub proof fn law_fresh_channel_is_served(
    plan: FetchPlanView,
    api_key: Seq<char>,
    stored: StoredChannelView,
    now: i64,
    color: Seq<char>,
)
    requires
        recently_updated_at(stored.last_updated, now),
    ensures
        route_step(
            RouteStageView::AwaitLookup { plan },
            api_key,
            RouteEventView::Looked(Some(stored)),
            now,
            color,
        ) == (RouteStageView::Ended, RouteActionView::ServeStored),
{
}

/// A channel whose videos are being loaded or updated is served from the
/// store, however old it is.
pub proof fn law_loading_channel_is_served(
    plan: FetchPlanView,
    api_key: Seq<char>,
    stored: StoredChannelView,
    now: i64,
    color: Seq<char>,
)
    requires
        stored.status == "LOADING"@ || stored.status == "UPDATING"@,
    ensures
        route_step(
            RouteStageView::AwaitLookup { plan },
            api_key,
            RouteEventView::Looked(Some(stored)),
            now,
            color,
        ) == (RouteStageView::Ended, RouteActionView::ServeStored),
{
}

/// A channel that is not stored, or that is stored, older than a week and
/// not being loaded, is fetched: by its channel id, or through its channel
/// page; the fetched channel replaces the stored one when there is one.
pub proof fn law_missing_or_stale_channel_is_fetched(
    plan: FetchPlanView,
    api_key: Seq<char>,
    stored: Option<StoredChannelView>,
    now: i64,
    color: Seq<char>,
)
    requires
        needs_refresh(stored, now),
    ensures
        ({
            let (stage, action) = route_step(
                RouteStageView::AwaitLookup { plan },
                api_key,
                RouteEventView::Looked(stored),
                now,
                color,
            );
            match plan {
                FetchPlanView::Channel(id) => stage == (RouteStageView::AwaitChannel {
                    replace: stored is Some,
                }) && action == RouteActionView::FetchChannel(channel_request_for_id(api_key, id)),
                FetchPlanView::ChannelPage(url) => stage == (RouteStageView::AwaitChannelPage {
                    then_lookup: false,
                    replace: stored is Some,
                }) && action == RouteActionView::FetchChannelPage(url),
            }
        }),
{
}

/// A channel looked up by its id and fetched from YouTube replaces the
/// stored channel when one was stored (a weekly refresh updates the record)
/// and is stored anew when none was: never both, so a channel is not stored
/// twice.
pub proof fn law_refresh_replaces_stored_channel(
    id: Seq<char>,
    api_key: Seq<char>,
    stored: Option<StoredChannelView>,
    now: i64,
    body: Seq<char>,
    color: Seq<char>,
)
    requires
        needs_refresh(stored, now),
        channel_response_readable(body),
        channel_of_response(body, color, now)->0.channel_name.len() > 0,
    ensures
        ({
            let c = channel_of_response(body, color, now)->0;
            let (s1, a1) = route_step(
                RouteStageView::AwaitLookup { plan: FetchPlanView::Channel(id) },
                api_key,
                RouteEventView::Looked(stored),
                now,
                color,
            );
            let (s2, a2) = route_step(s1, api_key, RouteEventView::ChannelFetched(body), now, color);
            &&& a1 == RouteActionView::FetchChannel(channel_request_for_id(api_key, id))
            &&& stored is Some ==> a2 == RouteActionView::ReplaceAndLoadVideos(c)
            &&& stored is None ==> a2 == RouteActionView::StoreAndLoadVideos(c)
            &&& s2 == (RouteStageView::AwaitStore { channel_id: c.channel_id })
        }),
{
}

/// A fetched channel replaces the stored one exactly when the lookup found a
/// stored channel, and is stored anew exactly when it found none, whatever
/// the route: looked up by id, looked up by custom URL and resolved through
/// its channel page, or resolved through its channel page first and then
/// looked up by id.
proof fn lemma_fetched_channel_action(
    replace: bool,
    api_key: Seq<char>,
    body: Seq<char>,
    now: i64,
    color: Seq<char>,
)
    requires
        channel_response_readable(body),
        channel_of_response(body, color, now)->0.channel_name.len() > 0,
    ensures
        route_step(RouteStageView::AwaitChannel { replace }, api_key, RouteEventView::ChannelFetched(body), now, color).1
            == (if replace {
            RouteActionView::ReplaceAndLoadVideos(channel_of_response(body, color, now)->0)
        } else {
            RouteActionView::StoreAndLoadVideos(channel_of_response(body, color, now)->0)
        }),
{
}

#[verifier::rlimit(40)]
pub proof fn law_replace_exactly_when_stored(
    kind: RouteKind,
    param: Seq<char>,
    api_key: Seq<char>,
    stored: Option<StoredChannelView>,
    now: i64,
    color: Seq<char>,
    page: Seq<char>,
    body: Seq<char>,
)
    requires
        needs_refresh(stored, now),
        page_channel_id(false, page) matches Some(id) && id.len() > 0,
        channel_response_readable(body),
        channel_of_response(body, color, now)->0.channel_name.len() > 0,
    ensures
        ({
            let c = channel_of_response(body, color, now)->0;
            let page_event = RouteEventView::ChannelPage { not_found: false, body: page };
            let s0 = route_start(kind, param).0;
            let s_fetch = match kind {
                RouteKind::ById => route_step(s0, api_key, RouteEventView::Looked(stored), now, color).0,
                RouteKind::ByCustomUrl => route_step(
                    route_step(s0, api_key, RouteEventView::Looked(stored), now, color).0,
                    api_key,
                    page_event,
                    now,
                    color,
                ).0,
                RouteKind::ByUsername => route_step(
                    route_step(s0, api_key, page_event, now, color).0,
                    api_key,
                    RouteEventView::Looked(stored),
                    now,
                    color,
                ).0,
            };
            let action = route_step(s_fetch, api_key, RouteEventView::ChannelFetched(body), now, color).1;
            &&& stored is Some ==> action == RouteActionView::ReplaceAndLoadVideos(c)
            &&& stored is None ==> action == RouteActionView::StoreAndLoadVideos(c)
        }),
{
    let id = page_channel_id(false, page)->0;
    let page_event = RouteEventView::ChannelPage { not_found: false, body: page };
    let fetching = RouteStageView::AwaitChannel { replace: stored is Some };
    let s0 = route_start(kind, param).0;
    lemma_fetched_channel_action(stored is Some, api_key, body, now, color);
    match kind {
        RouteKind::ById => {
            law_missing_or_stale_channel_is_fetched(FetchPlanView::Channel(param), api_key, stored, now, color);
            assert(route_step(s0, api_key, RouteEventView::Looked(stored), now, color).0 == fetching);
        },
        RouteKind::ByCustomUrl => {
            let url = channel_page_url("https://www.youtube.com/c/"@, param);
            law_missing_or_stale_channel_is_fetched(FetchPlanView::ChannelPage(url), api_key, stored, now, color);
            let s1 = route_step(s0, api_key, RouteEventView::Looked(stored), now, color).0;
            assert(s1 == RouteStageView::AwaitChannelPage { then_lookup: false, replace: stored is Some });
            assert(route_step(s1, api_key, page_event, now, color).0 == fetching);
        },
        RouteKind::ByUsername => {
            let s1 = route_step(s0, api_key, page_event, now, color).0;
            assert(s1 == RouteStageView::AwaitLookup { plan: FetchPlanView::Channel(id) });
            law_missing_or_stale_channel_is_fetched(FetchPlanView::Channel(id), api_key, stored, now, color);
            assert(route_step(s1, api_key, RouteEventView::Looked(stored), now, color).0 == fetching);
        },
    }
}

/// A channel read from YouTube is stored as loading, without videos and with
/// the fetch time, then looked up by its id, and that stored record is
/// served; a lookup before a week has passed then serves it without asking
/// YouTube again.
pub proof fn law_fetched_channel_is_stored_then_served(
    api_key: Seq<char>,
    body: Seq<char>,
    now: i64,
    color: Seq<char>,
    stored: Option<StoredChannelView>,
    later: i64,
    plan: FetchPlanView,
    color2: Seq<char>,
    replace: bool,
)
    requires
        channel_response_readable(body),
        channel_of_response(body, color, now)->0.channel_name.len() > 0,
        in_chrono_range(now),
        now <= later < now + 8 * MILLIS_PER_DAY,
    ensures
        ({
            let c = channel_of_response(body, color, now)->0;
            let (s1, a1) = route_step(
                RouteStageView::AwaitChannel { replace },
                api_key,
                RouteEventView::ChannelFetched(body),
                now,
                color,
            );
            let (s2, a2) = route_step(s1, api_key, RouteEventView::Stored, now, color);
            let (s3, a3) = route_step(s2, api_key, RouteEventView::Looked(stored), now, color);
            &&& a1 == (if replace {
                RouteActionView::ReplaceAndLoadVideos(c)
            } else {
                RouteActionView::StoreAndLoadVideos(c)
            })
            &&& c.status == "LOADING"@
            &&& c.videos.len() == 0
            &&& c.last_updated == now
            &&& c.video_count <= 20
            &&& a2 == RouteActionView::LookupById(c.channel_id)
            &&& a3 == RouteActionView::ServeStored
            &&& s3 is Ended
            &&& route_step(
                RouteStageView::AwaitLookup { plan },
                api_key,
                RouteEventView::Looked(Some(StoredChannelView { status: c.status, last_updated: c.last_updated })),
                later,
                color2,
            ).1 == RouteActionView::ServeStored
        }),
{
    law_recent_means_under_eight_days(now, later);
}

} // verus!
