use youtube_map::playlist::{plan_page_exec, LoaderAction, PlaylistLoader};
use youtube_map::request::HttpRequest;
use youtube_map::youtube_api::YoutubeApi;

fn q(k: &str, v: &str) -> (String, String) {
    (k.to_string(), v.to_string())
}

fn sent(action: LoaderAction) -> HttpRequest {
    match action {
        LoaderAction::Send(r) => r,
        LoaderAction::Done(_) => panic!("done too early"),
        LoaderAction::Unreadable => panic!("unreadable"),
    }
}

const ITEMS_PAGE: &str = r#"{
  "nextPageToken": "PAGE2",
  "items": [
    {"contentDetails": {"videoId": "vid1"}},
    {"contentDetails": {"videoId": "vid2"}}
  ]
}"#;

const DETAILS_PAGE: &str = r#"{
  "items": [
    {
      "id": "vid1",
      "snippet": {"title": "Hiking in Peru", "publishedAt": "2021-05-01T10:00:00Z", "categoryId": "19",
                  "defaultLanguage": "en", "defaultAudioLanguage": "en-US"},
      "status": {"madeForKids": false},
      "topicDetails": {"topicCategories": ["https://en.wikipedia.org/wiki/Tourism"]},
      "recordingDetails": {"location": {"latitude": -13.16, "longitude": -72.54},
                           "locationDescription": "Machu Picchu"}
    },
    {
      "id": "vid2",
      "snippet": {"title": "Street food in Lima", "publishedAt": "2021-05-02T10:00:00Z", "categoryId": "19"},
      "status": {"madeForKids": true},
      "topicDetails": {"topicCategories": []}
    }
  ]
}"#;

const COORDINATES: &str = r#"[{"latitude": "-12.04", "longitude": "-77.04"}]"#;

#[test]
fn page_plan_caps_pages_at_fifty() {
    assert_eq!(plan_page_exec(0), (0, 0));
    assert_eq!(plan_page_exec(20), (20, 0));
    assert_eq!(plan_page_exec(50), (50, 0));
    assert_eq!(plan_page_exec(120), (50, 70));
    // law_page_plan_accounts_for_every_video on concrete values
    for open in [0u32, 1, 49, 50, 51, 120, u32::MAX] {
        let (max, rest) = plan_page_exec(open);
        assert_eq!(max as u64 + rest as u64, open as u64);
        assert!(max <= 50);
        assert!(rest == 0 || max == 50);
    }
}

#[test]
fn first_request_repeats_max_results() {
    let api = YoutubeApi::new("KEY".to_string());
    let (_loader, first) = api.get_playlist_videos(&"UUabc".to_string(), "FIRST_PAGE".to_string(), 20);
    assert_eq!(first.url, "https://youtube.googleapis.com/youtube/v3/playlistItems");
    assert!(first.json_headers);
    assert_eq!(
        first.query,
        vec![
            q("part", "contentDetails"),
            q("key", "KEY"),
            q("playlistId", "UUabc"),
            q("maxResults", "20"),
            q("maxResults", "20"),
        ]
    );
    let (_loader, later) = api.get_playlist_videos(&"UUabc".to_string(), "TOKEN".to_string(), 70);
    assert_eq!(later.query[3], q("pageToken", "TOKEN"));
    assert_eq!(later.query[4], q("maxResults", "50"));
}

#[test]
fn loader_reads_videos_and_asks_for_missing_coordinates() {
    let (mut loader, _) = PlaylistLoader::start("KEY".to_string(), "UUabc".to_string(), &"FIRST_PAGE".to_string(), 2);
    let details = sent(loader.on_response(ITEMS_PAGE));
    assert_eq!(details.url, "https://youtube.googleapis.com/youtube/v3/videos");
    assert_eq!(
        details.query,
        vec![q("part", "snippet,status,topicDetails,recordingDetails"), q("key", "KEY"), q("id", "vid1,vid2")]
    );
    let coordinates = sent(loader.on_response(DETAILS_PAGE));
    assert_eq!(coordinates.url, "http://localhost:80/coordinates/");
    // The location service is given the title itself.
    assert_eq!(coordinates.query, vec![q("video_title", "Street food in Lima")]);
    match loader.on_response(COORDINATES) {
        LoaderAction::Done(videos) => {
            assert_eq!(videos.len(), 2);
            let v1 = &videos[0];
            assert_eq!(v1.video_id, "vid1");
            assert_eq!(v1.video_titel, "Hiking in Peru");
            assert_eq!(v1.video_description, "");
            assert_eq!(v1.video_published_at, "2021-05-01T10:00:00Z");
            assert_eq!(v1.video_category_id, "19");
            assert_eq!(v1.video_default_language, "en");
            assert_eq!(v1.video_default_audio_language, "en-US");
            assert!(!v1.made_for_kids);
            assert_eq!(v1.video_topics.len(), 1);
            assert_eq!(v1.video_topics[0].topic_id, "");
            assert_eq!(v1.video_topics[0].topic_url, "https://en.wikipedia.org/wiki/Tourism");
            assert_eq!(v1.video_location.latitude, "-13.16");
            assert_eq!(v1.video_location.longitude, "-72.54");
            assert_eq!(v1.video_location.description, "Machu Picchu");
            let v2 = &videos[1];
            assert_eq!(v2.video_id, "vid2");
            assert_eq!(v2.video_default_language, "null");
            assert!(v2.made_for_kids);
            assert!(v2.video_topics.is_empty());
            assert_eq!(v2.video_location.latitude, "-12.04");
            assert_eq!(v2.video_location.longitude, "-77.04");
            assert_eq!(v2.video_location.description, "null");
        },
        _ => panic!("expected the videos"),
    }
    assert!(loader.is_finished());
}

#[test]
fn loader_follows_next_page_while_videos_stay_open() {
    let (mut loader, _) = PlaylistLoader::start("KEY".to_string(), "UUabc".to_string(), &"FIRST_PAGE".to_string(), 52);
    sent(loader.on_response(ITEMS_PAGE));
    let details_all_located = DETAILS_PAGE.replace(
        "\"topicDetails\": {\"topicCategories\": []}",
        "\"topicDetails\": {\"topicCategories\": []}, \"recordingDetails\": {\"location\": {\"latitude\": 1.5, \"longitude\": 2.5}}",
    );
    let next = sent(loader.on_response(&details_all_located));
    assert_eq!(next.url, "https://youtube.googleapis.com/youtube/v3/playlistItems");
    assert_eq!(next.query[3], q("pageToken", "PAGE2"));
    assert_eq!(next.query[4], q("maxResults", "2"));
    assert!(!loader.is_finished());
    // The second page has no further token: loading ends with all videos, in order.
    let last_items = r#"{"items": [{"contentDetails": {"videoId": "vid3"}}]}"#;
    let d = sent(loader.on_response(last_items));
    assert_eq!(d.query[2], q("id", "vid3"));
    let last_details = r#"{"items": [{"id": "vid3", "snippet": {"title": "T3"}, "status": {"madeForKids": false},
        "topicDetails": {"topicCategories": ["c"]}, "recordingDetails": {"location": {"latitude": 3, "longitude": 4}}}]}"#;
    match loader.on_response(last_details) {
        LoaderAction::Done(videos) => {
            let ids: Vec<&str> = videos.iter().map(|v| v.video_id.as_str()).collect();
            assert_eq!(ids, vec!["vid1", "vid2", "vid3"]);
        },
        _ => panic!("expected the videos"),
    }
}

#[test]
fn loader_stops_when_no_video_stays_open() {
    let (mut loader, _) = PlaylistLoader::start("KEY".to_string(), "UUabc".to_string(), &"FIRST_PAGE".to_string(), 1);
    sent(loader.on_response(r#"{"nextPageToken": "P2", "items": [{"contentDetails": {"videoId": "vid3"}}]}"#));
    let details = r#"{"items": [{"id": "vid3", "snippet": {"title": "T3"}, "status": {"madeForKids": false},
        "topicDetails": {"topicCategories": []}, "recordingDetails": {"location": {"latitude": 3, "longitude": 4}}}]}"#;
    match loader.on_response(details) {
        LoaderAction::Done(videos) => assert_eq!(videos.len(), 1),
        _ => panic!("expected the videos"),
    }
}

#[test]
fn ids_parameter_drops_quotes_backslashes_and_trailing_commas() {
    let (mut loader, _) = PlaylistLoader::start("K".to_string(), "P".to_string(), &"FIRST_PAGE".to_string(), 5);
    let items = r#"{"items": [{"contentDetails": {"videoId": "a\\b"}}, {"contentDetails": {}}, {"contentDetails": {"videoId": "c"}}]}"#;
    let details = sent(loader.on_response(items));
    assert_eq!(details.query[2], q("id", "ab,null,c"));
}

#[test]
fn unreadable_responses_end_loading() {
    let (mut loader, _) = PlaylistLoader::start("K".to_string(), "P".to_string(), &"FIRST_PAGE".to_string(), 5);
    assert!(matches!(loader.on_response("not json"), LoaderAction::Unreadable));
    assert!(loader.is_finished());

    let (mut loader, _) = PlaylistLoader::start("K".to_string(), "P".to_string(), &"FIRST_PAGE".to_string(), 5);
    assert!(matches!(loader.on_response(r#"{"items": 3}"#), LoaderAction::Unreadable));

    // A video whose topic categories are missing cannot be read.
    let (mut loader, _) = PlaylistLoader::start("K".to_string(), "P".to_string(), &"FIRST_PAGE".to_string(), 5);
    sent(loader.on_response(ITEMS_PAGE));
    let no_topics = DETAILS_PAGE.replace("\"topicDetails\": {\"topicCategories\": []}", "\"topicDetails\": {}");
    assert!(matches!(loader.on_response(&no_topics), LoaderAction::Unreadable));

    // A video that needed coordinates and has no madeForKids flag cannot be read.
    let (mut loader, _) = PlaylistLoader::start("K".to_string(), "P".to_string(), &"FIRST_PAGE".to_string(), 5);
    sent(loader.on_response(ITEMS_PAGE));
    let no_kids = DETAILS_PAGE.replace("\"madeForKids\": true", "\"madeForKids\": \"maybe\"");
    let coords = sent(loader.on_response(&no_kids));
    assert_eq!(coords.url, "http://localhost:80/coordinates/");
    assert!(matches!(loader.on_response(COORDINATES), LoaderAction::Unreadable));

    // A location service answer that is not JSON cannot be read.
    let (mut loader, _) = PlaylistLoader::start("K".to_string(), "P".to_string(), &"FIRST_PAGE".to_string(), 5);
    sent(loader.on_response(ITEMS_PAGE));
    sent(loader.on_response(DETAILS_PAGE));
    assert!(matches!(loader.on_response("oops"), LoaderAction::Unreadable));

    // A video whose madeForKids is not a boolean cannot be read.
    let (mut loader, _) = PlaylistLoader::start("K".to_string(), "P".to_string(), &"FIRST_PAGE".to_string(), 5);
    sent(loader.on_response(ITEMS_PAGE));
    let bad_kids = DETAILS_PAGE.replace("\"madeForKids\": false", "\"madeForKids\": null");
    assert!(matches!(loader.on_response(&bad_kids), LoaderAction::Unreadable));
}

#[test]
fn location_service_gets_the_title_with_escapes_resolved() {
    let (mut loader, _) = PlaylistLoader::start("K".to_string(), "P".to_string(), &"FIRST_PAGE".to_string(), 5);
    sent(loader.on_response(ITEMS_PAGE));
    let escaped = DETAILS_PAGE.replace("Street food in Lima", r#"Caf\u00e9 \"Lima\" \\ 2"#);
    let coordinates = sent(loader.on_response(&escaped));
    assert_eq!(coordinates.query, vec![q("video_title", "Café \"Lima\" \\ 2")]);

    // A title that is not a string is sent as its JSON text.
    let (mut loader, _) = PlaylistLoader::start("K".to_string(), "P".to_string(), &"FIRST_PAGE".to_string(), 5);
    sent(loader.on_response(ITEMS_PAGE));
    let untitled = DETAILS_PAGE.replace("\"title\": \"Street food in Lima\", ", "");
    let coordinates = sent(loader.on_response(&untitled));
    assert_eq!(coordinates.query, vec![q("video_title", "null")]);
}
