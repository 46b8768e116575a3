use youtube_map::model::{AddChannelRequestBody, Channel, Location, Video, YoutubeTopic};

#[test]
fn constructors_keep_their_fields() {
    let topic = YoutubeTopic::new("id1".to_string(), "https://en.wikipedia.org/wiki/Travel".to_string());
    assert_eq!(topic.topic_id, "id1");
    assert_eq!(topic.topic_url, "https://en.wikipedia.org/wiki/Travel");

    let location = Location::new("48.1".to_string(), "11.5".to_string(), "Munich".to_string());
    assert_eq!(location.latitude, "48.1");
    assert_eq!(location.longitude, "11.5");
    assert_eq!(location.description, "Munich");

    let video = Video::new(
        "v1".to_string(),
        "Title".to_string(),
        "Description".to_string(),
        "2021-01-01T00:00:00Z".to_string(),
        "19".to_string(),
        "en".to_string(),
        "de".to_string(),
        vec![topic],
        location,
        true,
    );
    assert_eq!(video.video_id, "v1");
    assert_eq!(video.video_titel, "Title");
    assert_eq!(video.video_description, "Description");
    assert_eq!(video.video_published_at, "2021-01-01T00:00:00Z");
    assert_eq!(video.video_category_id, "19");
    assert_eq!(video.video_default_language, "en");
    assert_eq!(video.video_default_audio_language, "de");
    assert_eq!(video.video_topics.len(), 1);
    assert_eq!(video.video_location.description, "Munich");
    assert!(video.made_for_kids);

    let channel = Channel::new(
        "UC1".to_string(),
        "Name".to_string(),
        "Desc".to_string(),
        "img".to_string(),
        "banner".to_string(),
        "DE".to_string(),
        "UU1".to_string(),
        1234,
        vec![],
        "travel".to_string(),
        "trailer".to_string(),
        false,
        "LOADING".to_string(),
        vec![video],
        "#FFAA00".to_string(),
        1_600_000_000_000,
        20,
    );
    assert_eq!(channel.channel_id, "UC1");
    assert_eq!(channel.channel_name, "Name");
    assert_eq!(channel.channel_description, "Desc");
    assert_eq!(channel.channel_profil_image, "img");
    assert_eq!(channel.channel_banner_image, "banner");
    assert_eq!(channel.channel_country, "DE");
    assert_eq!(channel.channel_uploads_playlist_id, "UU1");
    assert_eq!(channel.channel_subscriber_count, 1234);
    assert!(channel.channel_topics.is_empty());
    assert_eq!(channel.channel_keywords, "travel");
    assert_eq!(channel.channel_trailer, "trailer");
    assert!(!channel.made_for_kids);
    assert_eq!(channel.status, "LOADING");
    assert_eq!(channel.videos.len(), 1);
    assert_eq!(channel.color, "#FFAA00");
    assert_eq!(channel.last_updated, 1_600_000_000_000);
    assert_eq!(channel.video_count, 20);

    let body = AddChannelRequestBody { channel_url: "https://www.youtube.com/c/x".to_string(), video_amount: 5 };
    assert_eq!(body.video_amount, 5);
}
