use std::time::{SystemTime, UNIX_EPOCH};
use youtube_map::clock::MILLIS_PER_DAY;
use youtube_map::router::{
    channel_id_from_page, needs_refresh_at, updated_within_week_at, was_in_the_last_7_days,
    ChannelRoute, RouteAction, RouteEvent, RouteKind, StoredChannel,
};
use youtube_map::youtube_api::YoutubeApi;

const DAY: i64 = MILLIS_PER_DAY;
const NOW: i64 = 1_700_000_000_000;

const PAGE: &str = r#"<html><head><link rel="canonical" href="https://www.youtube.com/channel/UCxyz123"><meta></head></html>"#;

const CHANNEL_RESPONSE: &str = r#"{"items": [{"id": "UCxyz123", "snippet": {"title": "Travels"},
  "contentDetails": {"relatedPlaylists": {"uploads": "UUxyz123"}},
  "statistics": {"subscriberCount": "10", "videoCount": "3"}}]}"#;

fn stored(status: &str, last_updated: i64) -> Option<StoredChannel> {
    Some(StoredChannel { status: status.to_string(), last_updated })
}

#[test]
fn week_window_is_under_eight_days() {
    assert!(updated_within_week_at(NOW, NOW));
    assert!(updated_within_week_at(NOW - 7 * DAY, NOW));
    assert!(updated_within_week_at(NOW - 8 * DAY + 1, NOW));
    assert!(!updated_within_week_at(NOW - 8 * DAY, NOW));
    assert!(updated_within_week_at(NOW + 30 * DAY, NOW));
    // Far outside chrono's range the stored time is clamped first.
    assert!(!updated_within_week_at(i64::MIN, NOW));
    assert!(updated_within_week_at(i64::MAX, NOW));
    let now = SystemTime::now().duration_since(UNIX_EPOCH).unwrap().as_millis() as i64;
    assert!(was_in_the_last_7_days(now));
    assert!(was_in_the_last_7_days(now - 7 * DAY + 60_000));
    assert!(!was_in_the_last_7_days(now - 9 * DAY));
    assert!(!was_in_the_last_7_days(0));
}

#[test]
fn refresh_policy() {
    assert!(needs_refresh_at(&None, NOW));
    assert!(!needs_refresh_at(&stored("FINISHED", NOW - DAY), NOW));
    assert!(needs_refresh_at(&stored("FINISHED", NOW - 9 * DAY), NOW));
    assert!(!needs_refresh_at(&stored("LOADING", NOW - 90 * DAY), NOW));
    assert!(!needs_refresh_at(&stored("UPDATING", NOW - 90 * DAY), NOW));
}

#[test]
fn channel_id_from_canonical_link() {
    assert_eq!(channel_id_from_page(false, PAGE), Some("UCxyz123".to_string()));
    assert_eq!(channel_id_from_page(true, PAGE), Some(String::new()));
    assert_eq!(channel_id_from_page(false, "<html>nothing</html>"), None);
    // `.` in the pattern matches any character but a newline.
    assert_eq!(
        channel_id_from_page(false, r#"canonical" href="https://wwwXyoutubeYcom/channel/UC9""#),
        Some("UC9".to_string())
    );
    // The id keeps every character, and may be empty.
    assert_eq!(
        channel_id_from_page(false, r#"canonical" href="https://www.youtube.com/channel/héllo""#),
        Some("héllo".to_string())
    );
    assert_eq!(
        channel_id_from_page(false, r#"canonical" href="https://www.youtube.com/channel/""#),
        Some(String::new())
    );
    // The first link counts.
    let two = format!("{}{}", r#"canonical" href="https://www.youtube.com/channel/A" "#, PAGE);
    assert_eq!(channel_id_from_page(false, &two), Some("A".to_string()));
}

fn expect_lookup_by_id(action: RouteAction) -> String {
    match action {
        RouteAction::LookupById(id) => id,
        _ => panic!("expected a lookup by id"),
    }
}

#[test]
fn by_id_serves_fresh_channel() {
    let api = YoutubeApi::new("KEY".to_string());
    let (mut route, first) = ChannelRoute::start(RouteKind::ById, &"UCxyz123".to_string());
    assert_eq!(expect_lookup_by_id(first), "UCxyz123");
    let next = route.on_event_at(&api, RouteEvent::Looked(stored("FINISHED", NOW - DAY)), NOW, "#FFF".to_string());
    assert!(matches!(next, RouteAction::ServeStored));
    assert!(route.is_ended());
}

#[test]
fn by_id_fetches_stores_and_serves_missing_channel() {
    let api = YoutubeApi::new("KEY".to_string());
    let (mut route, _) = ChannelRoute::start(RouteKind::ById, &"UCxyz123".to_string());
    match route.on_event_at(&api, RouteEvent::Looked(None), NOW, "#FFF".to_string()) {
        RouteAction::FetchChannel(req) => {
            assert_eq!(req.url, "https://youtube.googleapis.com/youtube/v3/channels");
            assert_eq!(req.query[2], ("id".to_string(), "UCxyz123".to_string()));
        },
        _ => panic!("expected a channel request"),
    }
    match route.on_event_at(&api, RouteEvent::ChannelFetched(CHANNEL_RESPONSE.to_string()), NOW, "#ABC".to_string()) {
        RouteAction::StoreAndLoadVideos(c) => {
            assert_eq!(c.channel_id, "UCxyz123");
            assert_eq!(c.channel_name, "Travels");
            assert_eq!(c.status, "LOADING");
            assert_eq!(c.color, "#ABC");
            assert_eq!(c.last_updated, NOW);
            assert_eq!(c.video_count, 3);
        },
        _ => panic!("expected the channel to be stored"),
    }
    assert_eq!(expect_lookup_by_id(route.on_event_at(&api, RouteEvent::Stored, NOW, "#FFF".to_string())), "UCxyz123");
    assert!(matches!(
        route.on_event_at(&api, RouteEvent::Looked(stored("LOADING", NOW)), NOW, "#FFF".to_string()),
        RouteAction::ServeStored
    ));
    assert!(route.is_ended());
}

#[test]
fn unknown_channel_is_not_found() {
    let api = YoutubeApi::new("KEY".to_string());
    let (mut route, _) = ChannelRoute::start(RouteKind::ById, &"nobody".to_string());
    route.on_event_at(&api, RouteEvent::Looked(None), NOW, "#FFF".to_string());
    let empty = r#"{"kind": "youtube#channelListResponse", "pageInfo": {"totalResults": 0}, "items": [{"statistics": {"videoCount": "0"}, "snippet": {"title": ""}}]}"#;
    assert!(matches!(
        route.on_event_at(&api, RouteEvent::ChannelFetched(empty.to_string()), NOW, "#FFF".to_string()),
        RouteAction::NotFound
    ));
}

#[test]
fn unreadable_channel_response_aborts() {
    let api = YoutubeApi::new("KEY".to_string());
    let (mut route, _) = ChannelRoute::start(RouteKind::ById, &"UC1".to_string());
    route.on_event_at(&api, RouteEvent::Looked(None), NOW, "#FFF".to_string());
    assert!(matches!(
        route.on_event_at(&api, RouteEvent::ChannelFetched("{}".to_string()), NOW, "#FFF".to_string()),
        RouteAction::Abort
    ));
}

#[test]
fn by_custom_url_resolves_page_when_stale() {
    let api = YoutubeApi::new("KEY".to_string());
    let (mut route, first) = ChannelRoute::start(RouteKind::ByCustomUrl, &"travels".to_string());
    assert!(matches!(first, RouteAction::LookupByCustomUrl(ref p) if p == "travels"));
    match route.on_event_at(&api, RouteEvent::Looked(stored("FINISHED", NOW - 30 * DAY)), NOW, "#FFF".to_string()) {
        RouteAction::FetchChannelPage(url) => assert_eq!(url, "https://www.youtube.com/c/travels/videos"),
        _ => panic!("expected the channel page"),
    }
    match route.on_event_at(&api, RouteEvent::ChannelPage { not_found: false, body: PAGE.to_string() }, NOW, "#FFF".to_string()) {
        RouteAction::FetchChannel(req) => assert_eq!(req.query[2], ("id".to_string(), "UCxyz123".to_string())),
        _ => panic!("expected a channel request"),
    }
    // The stale stored channel is replaced, not stored a second time.
    match route.on_event_at(&api, RouteEvent::ChannelFetched(CHANNEL_RESPONSE.to_string()), NOW, "#ABC".to_string()) {
        RouteAction::ReplaceAndLoadVideos(c) => assert_eq!(c.channel_id, "UCxyz123"),
        _ => panic!("expected the stored channel to be replaced"),
    }
    assert_eq!(expect_lookup_by_id(route.on_event_at(&api, RouteEvent::Stored, NOW, "#FFF".to_string())), "UCxyz123");
}

#[test]
fn by_id_replaces_stale_channel() {
    let api = YoutubeApi::new("KEY".to_string());
    let (mut route, _) = ChannelRoute::start(RouteKind::ById, &"UCxyz123".to_string());
    match route.on_event_at(&api, RouteEvent::Looked(stored("FINISHED", NOW - 9 * DAY)), NOW, "#FFF".to_string()) {
        RouteAction::FetchChannel(req) => {
            assert_eq!(req.query[0].0, "part");
            assert_eq!(req.query[1], ("key".to_string(), "KEY".to_string()));
            assert_eq!(req.query[2], ("id".to_string(), "UCxyz123".to_string()));
        },
        _ => panic!("expected a channel request"),
    }
    match route.on_event_at(&api, RouteEvent::ChannelFetched(CHANNEL_RESPONSE.to_string()), NOW, "#ABC".to_string()) {
        RouteAction::ReplaceAndLoadVideos(c) => {
            assert_eq!(c.channel_id, "UCxyz123");
            assert_eq!(c.status, "LOADING");
            assert_eq!(c.last_updated, NOW);
        },
        _ => panic!("expected the stored channel to be replaced"),
    }
}

#[test]
fn by_custom_url_missing_page_is_not_found() {
    let api = YoutubeApi::new("KEY".to_string());
    let (mut route, _) = ChannelRoute::start(RouteKind::ByCustomUrl, &"gone".to_string());
    route.on_event_at(&api, RouteEvent::Looked(None), NOW, "#FFF".to_string());
    assert!(matches!(
        route.on_event_at(&api, RouteEvent::ChannelPage { not_found: true, body: String::new() }, NOW, "#FFF".to_string()),
        RouteAction::NotFound
    ));
}

#[test]
fn by_username_resolves_page_first() {
    let api = YoutubeApi::new("KEY".to_string());
    let (mut route, first) = ChannelRoute::start(RouteKind::ByUsername, &"traveler".to_string());
    assert!(matches!(first, RouteAction::FetchChannelPage(ref u) if u == "https://www.youtube.com/traveler/videos"));
    let lookup = route.on_event_at(&api, RouteEvent::ChannelPage { not_found: false, body: PAGE.to_string() }, NOW, "#FFF".to_string());
    assert_eq!(expect_lookup_by_id(lookup), "UCxyz123");
    assert!(matches!(
        route.on_event_at(&api, RouteEvent::Looked(stored("UPDATING", 0)), NOW, "#FFF".to_string()),
        RouteAction::ServeStored
    ));
}

#[test]
fn page_without_canonical_link_aborts() {
    let api = YoutubeApi::new("KEY".to_string());
    let (mut route, _) = ChannelRoute::start(RouteKind::ByUsername, &"x".to_string());
    assert!(matches!(
        route.on_event(&api, RouteEvent::ChannelPage { not_found: false, body: "<html/>".to_string() }),
        RouteAction::Abort
    ));
}

#[test]
fn unexpected_event_aborts() {
    let api = YoutubeApi::new("KEY".to_string());
    let (mut route, _) = ChannelRoute::start(RouteKind::ById, &"UC1".to_string());
    assert!(matches!(route.on_event(&api, RouteEvent::Stored), RouteAction::Abort));
    assert!(route.is_ended());
}
