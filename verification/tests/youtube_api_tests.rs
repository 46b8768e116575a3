use youtube_map::json::{json_array_len_at, json_str_at, json_text_at, parse_json, JsonStep};
use youtube_map::youtube_api::{UrlParseError, YoutubeApi};

const CHANNEL_RESPONSE: &str = r#"{
  "items": [{
    "id": "UCabc",
    "snippet": {
      "title": "Travel \"Tales\"",
      "description": "Around the world",
      "thumbnails": {"default": {"url": "https://img/default.jpg"}},
      "country": "DE"
    },
    "brandingSettings": {
      "image": {"bannerExternalUrl": "https://img/banner.jpg"},
      "channel": {"keywords": "travel vlog", "unsubscribedTrailer": "trailer1"}
    },
    "contentDetails": {"relatedPlaylists": {"uploads": "UUabc"}},
    "statistics": {"subscriberCount": "1500", "videoCount": "75"},
    "topicDetails": {
      "topicIds": ["/m/07bxq", "/m/019_rr"],
      "topicCategories": ["https://en.wikipedia.org/wiki/Tourism"]
    },
    "status": {"madeForKids": false}
  }]
}"#;

#[test]
fn rem_first_and_last_strips_json_quotes() {
    assert_eq!(YoutubeApi::rem_first_and_last("\"abc\""), "abc");
    assert_eq!(YoutubeApi::rem_first_and_last("null"), "null");
    assert_eq!(YoutubeApi::rem_first_and_last("\"\""), "");
    assert_eq!(YoutubeApi::rem_first_and_last("\""), "");
    assert_eq!(YoutubeApi::rem_first_and_last("\"a"), "\"a");
    assert_eq!(YoutubeApi::rem_first_and_last("42"), "42");
    assert_eq!(YoutubeApi::rem_first_and_last(""), "");
    assert_eq!(YoutubeApi::rem_first_and_last("\"Zürich\""), "Zürich");
}

#[test]
fn hex_color_formats_components() {
    assert_eq!(YoutubeApi::hex_color(255, 1, 16), "#FF110");
    assert_eq!(YoutubeApi::hex_color(0, 0, 0), "#000");
    assert_eq!(YoutubeApi::hex_color(146, 10, 171), "#92AAB");
}

#[test]
fn random_colors_are_bright_enough() {
    for _ in 0..200 {
        let c = YoutubeApi::get_random_hex();
        assert!(c.starts_with('#'));
        assert!(c.len() >= 4 && c.len() <= 7);
        assert!(c[1..].chars().all(|ch| ch.is_ascii_digit() || ('A'..='F').contains(&ch)));
    }
}

#[test]
fn check_url_accepts_only_youtube_host() {
    let api = YoutubeApi::new("KEY".to_string());
    assert_eq!(api.check_url(&"https://www.youtube.com/c/travel".to_string()), Ok(true));
    assert_eq!(api.check_url(&"https://youtube.com/c/travel".to_string()), Ok(false));
    assert_eq!(api.check_url(&"mailto:someone@example.com".to_string()), Ok(false));
    assert_eq!(api.check_url(&"www.youtube.com/c/travel".to_string()), Err(UrlParseError::RelativeUrlWithoutBase));
    assert_eq!(api.check_url(&"http://".to_string()), Err(UrlParseError::EmptyHost));
    assert_eq!(api.check_url(&"http://example.com:99999".to_string()), Err(UrlParseError::InvalidPort));
    assert_eq!(api.check_url(&"http://[::1".to_string()), Err(UrlParseError::InvalidIpv6Address));
    assert_eq!(api.check_url(&"http://256.0.0.1".to_string()), Err(UrlParseError::InvalidIpv4Address));
    assert_eq!(api.check_url(&"http://exa mple.com".to_string()), Err(UrlParseError::IdnaError));
    assert_eq!(api.check_url(&"foo://a b/".to_string()), Err(UrlParseError::InvalidDomainCharacter));
}

#[test]
fn channel_identifier_by_id_or_custom_name() {
    assert_eq!(
        YoutubeApi::channel_identifier("https://www.youtube.com/channel/UC123"),
        ("UC123".to_string(), true)
    );
    assert_eq!(YoutubeApi::channel_identifier("https://www.youtube.com/c/travel"), ("travel".to_string(), false));
    assert_eq!(YoutubeApi::channel_identifier("UC123"), ("UC123".to_string(), false));
}

#[test]
fn channel_request_names_channel_by_id_or_user_name() {
    let api = YoutubeApi::new("KEY".to_string());
    let by_id = api.channel_request(&"https://www.youtube.com/channel/UC123".to_string());
    assert_eq!(by_id.url, "https://youtube.googleapis.com/youtube/v3/channels");
    assert!(by_id.json_headers);
    assert_eq!(
        by_id.query,
        vec![
            (
                "part".to_string(),
                "contentDetails,brandingSettings,contentOwnerDetails,localizations,snippet,statistics,status,topicDetails"
                    .to_string()
            ),
            ("key".to_string(), "KEY".to_string()),
            ("id".to_string(), "UC123".to_string()),
        ]
    );
    let by_name = api.channel_request(&"https://www.youtube.com/c/travel".to_string());
    assert_eq!(by_name.query[2], ("forUsername".to_string(), "travel".to_string()));
}

#[test]
fn json_reading_follows_serde_json() {
    let doc = parse_json(CHANNEL_RESPONSE).unwrap();
    let title = vec![
        JsonStep::Key("items".to_string()),
        JsonStep::Index(0),
        JsonStep::Key("snippet".to_string()),
        JsonStep::Key("title".to_string()),
    ];
    assert_eq!(json_text_at(&doc, &title), "\"Travel \\\"Tales\\\"\"");
    assert_eq!(json_str_at(&doc, &title), Some("Travel \"Tales\"".to_string()));
    let missing = vec![JsonStep::Key("items".to_string()), JsonStep::Index(3), JsonStep::Key("id".to_string())];
    assert_eq!(json_text_at(&doc, &missing), "null");
    assert_eq!(json_str_at(&doc, &missing), None);
    assert_eq!(json_array_len_at(&doc, &[JsonStep::Key("items".to_string())]), Some(1));
    assert_eq!(json_array_len_at(&doc, &title), None);
    assert!(parse_json("{not json").is_none());
}

#[test]
fn channel_from_json_reads_every_field() {
    let doc = parse_json(CHANNEL_RESPONSE).unwrap();
    let c = YoutubeApi::channel_from_json(&doc, "#FFFFFF".to_string(), 1234).unwrap();
    assert_eq!(c.channel_id, "UCabc");
    assert_eq!(c.channel_name, "Travel \\\"Tales\\\"");
    assert_eq!(c.channel_description, "Around the world");
    assert_eq!(c.channel_profil_image, "https://img/default.jpg");
    assert_eq!(c.channel_banner_image, "https://img/banner.jpg");
    assert_eq!(c.channel_country, "DE");
    assert_eq!(c.channel_uploads_playlist_id, "UUabc");
    assert_eq!(c.channel_subscriber_count, 1500);
    assert_eq!(c.channel_topics.len(), 2);
    assert_eq!(c.channel_topics[0].topic_id, "\"/m/07bxq\"");
    assert_eq!(c.channel_topics[0].topic_url, "\"https://en.wikipedia.org/wiki/Tourism\"");
    assert_eq!(c.channel_topics[1].topic_id, "\"/m/019_rr\"");
    assert_eq!(c.channel_topics[1].topic_url, "null");
    assert_eq!(c.channel_keywords, "travel vlog");
    assert_eq!(c.channel_trailer, "trailer1");
    assert!(!c.made_for_kids);
    assert_eq!(c.status, "LOADING");
    assert!(c.videos.is_empty());
    assert_eq!(c.color, "#FFFFFF");
    assert_eq!(c.last_updated, 1234);
    // 75 videos, of which at most 20 are loaded.
    assert_eq!(c.video_count, 20);
}

#[test]
fn channel_counts_null_unknown_and_unreadable() {
    let few = CHANNEL_RESPONSE.replace("\"subscriberCount\": \"1500\"", "\"subscriberCount\": null")
        .replace("\"videoCount\": \"75\"", "\"videoCount\": \"12\"");
    let c = YoutubeApi::channel_from_json(&parse_json(&few).unwrap(), "#FFF".to_string(), 0).unwrap();
    assert_eq!(c.channel_subscriber_count, 0);
    assert_eq!(c.video_count, 12);

    let bad_subscribers = CHANNEL_RESPONSE.replace("\"1500\"", "\"many\"");
    assert!(YoutubeApi::channel_from_json(&parse_json(&bad_subscribers).unwrap(), "#FFF".to_string(), 0).is_none());
    let no_videos = CHANNEL_RESPONSE.replace("\"videoCount\": \"75\",", "").replace(", \"videoCount\": \"75\"", "");
    assert!(YoutubeApi::channel_from_json(&parse_json(&no_videos).unwrap(), "#FFF".to_string(), 0).is_none());
}

#[test]
fn empty_channel_response_has_empty_name() {
    let c = YoutubeApi::channel_from_json(
        &parse_json(r#"{"items": [{"statistics": {"videoCount": "0"}}]}"#).unwrap(),
        "#FFF".to_string(),
        0,
    )
    .unwrap();
    assert_eq!(c.channel_name, "null");
    assert_eq!(c.channel_id, "null");
    assert!(c.channel_topics.is_empty());
    assert!(!c.made_for_kids);
}

#[test]
fn channel_from_response_draws_color_and_time() {
    let c = YoutubeApi::channel_from_response(CHANNEL_RESPONSE).unwrap();
    assert_eq!(c.channel_id, "UCabc");
    assert!(c.color.starts_with('#'));
    assert!(c.last_updated > 1_600_000_000_000);
    assert!(YoutubeApi::channel_from_response("<html>").is_none());
}
