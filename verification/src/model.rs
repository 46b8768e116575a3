//! The records kept for a channel and its videos.

use vstd::prelude::*;

verus! {

/// A topic of a channel or a video: its identifier and its Wikipedia URL.
#[derive(Debug)]
pub struct YoutubeTopic {
    pub topic_id: String,
    pub topic_url: String,
}

pub struct YoutubeTopicView {
    pub topic_id: Seq<char>,
    pub topic_url: Seq<char>,
}

impl View for YoutubeTopic {
    type V = YoutubeTopicView;

    open spec fn view(&self) -> YoutubeTopicView {
        YoutubeTopicView { topic_id: self.topic_id@, topic_url: self.topic_url@ }
    }
}

/// The view of each topic, in order.
pub open spec fn topics_view(topics: Seq<YoutubeTopic>) -> Seq<YoutubeTopicView> {
    topics.map_values(|t: YoutubeTopic| t@)
}

impl YoutubeTopic {
    pub fn new(topic_id: String, topic_url: String) -> (t: YoutubeTopic)
        ensures
            t.topic_id == topic_id,
            t.topic_url == topic_url,
    {
        YoutubeTopic { topic_id, topic_url }
    }
}

/// Where a video was recorded; each part is kept as the text the API gave,
/// `null` when unknown.
#[derive(Debug)]
pub struct Location {
    pub latitude: String,
    pub longitude: String,
    pub description: String,
}

pub struct LocationView {
    pub latitude: Seq<char>,
    pub longitude: Seq<char>,
    pub description: Seq<char>,
}

impl View for Location {
    type V = LocationView;

    open spec fn view(&self) -> LocationView {
        LocationView {
            latitude: self.latitude@,
            longitude: self.longitude@,
            description: self.description@,
        }
    }
}

impl Location {
    pub fn new(latitude: String, longitude: String, description: String) -> (l: Location)
        ensures
            l.latitude == latitude,
            l.longitude == longitude,
            l.description == description,
    {
        Location { latitude, longitude, description }
    }
}

/// One video of a channel.
#[derive(Debug)]
pub struct Video {
    pub video_id: String,
    pub video_titel: String,
    pub video_description: String,
    pub video_published_at: String,
    pub video_category_id: String,
    pub video_default_language: String,
    pub video_default_audio_language: String,
    pub video_topics: Vec<YoutubeTopic>,
    pub video_location: Location,
    pub made_for_kids: bool,
}

pub struct VideoView {
    pub video_id: Seq<char>,
    pub video_titel: Seq<char>,
    pub video_description: Seq<char>,
    pub video_published_at: Seq<char>,
    pub video_category_id: Seq<char>,
    pub video_default_language: Seq<char>,
    pub video_default_audio_language: Seq<char>,
    pub video_topics: Seq<YoutubeTopicView>,
    pub video_location: LocationView,
    pub made_for_kids: bool,
}

impl View for Video {
    type V = VideoView;

    open spec fn view(&self) -> VideoView {
        VideoView {
            video_id: self.video_id@,
            video_titel: self.video_titel@,
            video_description: self.video_description@,
            video_published_at: self.video_published_at@,
            video_category_id: self.video_category_id@,
            video_default_language: self.video_default_language@,
            video_default_audio_language: self.video_default_audio_language@,
            video_topics: topics_view(self.video_topics@),
            video_location: self.video_location@,
            made_for_kids: self.made_for_kids,
        }
    }
}

/// The view of each video, in order.
pub open spec fn videos_view(videos: Seq<Video>) -> Seq<VideoView> {
    videos.map_values(|v: Video| v@)
}

impl Video {
    pub fn new(
        video_id: String,
        video_titel: String,
        video_description: String,
        video_published_at: String,
        video_category_id: String,
        video_default_language: String,
        video_default_audio_language: String,
        video_topics: Vec<YoutubeTopic>,
        video_location: Location,
        made_for_kids: bool,
    ) -> (v: Video)
        ensures
            v.video_id == video_id,
            v.video_titel == video_titel,
            v.video_description == video_description,
            v.video_published_at == video_published_at,
            v.video_category_id == video_category_id,
            v.video_default_language == video_default_language,
            v.video_default_audio_language == video_default_audio_language,
            v.video_topics == video_topics,
            v.video_location == video_location,
            v.made_for_kids == made_for_kids,
    {
        Video {
            video_id,
            video_titel,
            video_description,
            video_published_at,
            video_category_id,
            video_default_language,
            video_default_audio_language,
            video_topics,
            video_location,
            made_for_kids,
        }
    }
}

/// A channel as it is stored: its YouTube data, the loading `status`
/// (`LOADING`, `UPDATING`, `FINISHED`), its videos, the map `color` it is drawn
/// with, when it was last fetched (`last_updated`, milliseconds since the Unix
/// epoch) and how many of its videos are loaded (`video_count`).
#[derive(Debug)]
pub struct Channel {
    pub channel_id: String,
    pub channel_name: String,
    pub channel_description: String,
    pub channel_profil_image: String,
    pub channel_banner_image: String,
    pub channel_country: String,
    pub channel_uploads_playlist_id: String,
    pub channel_subscriber_count: u32,
    pub channel_topics: Vec<YoutubeTopic>,
    pub channel_keywords: String,
    pub channel_trailer: String,
    pub made_for_kids: bool,
    pub status: String,
    pub videos: Vec<Video>,
    pub color: String,
    pub last_updated: i64,
    pub video_count: u32,
}

pub struct ChannelView {
    pub channel_id: Seq<char>,
    pub channel_name: Seq<char>,
    pub channel_description: Seq<char>,
    pub channel_profil_image: Seq<char>,
    pub channel_banner_image: Seq<char>,
    pub channel_country: Seq<char>,
    pub channel_uploads_playlist_id: Seq<char>,
    pub channel_subscriber_count: u32,
    pub channel_topics: Seq<YoutubeTopicView>,
    pub channel_keywords: Seq<char>,
    pub channel_trailer: Seq<char>,
    pub made_for_kids: bool,
    pub status: Seq<char>,
    pub videos: Seq<VideoView>,
    pub color: Seq<char>,
    pub last_updated: i64,
    pub video_count: u32,
}

impl View for Channel {
    type V = ChannelView;

    open spec fn view(&self) -> ChannelView {
        ChannelView {
            channel_id: self.channel_id@,
            channel_name: self.channel_name@,
            channel_description: self.channel_description@,
            channel_profil_image: self.channel_profil_image@,
            channel_banner_image: self.channel_banner_image@,
            channel_country: self.channel_country@,
            channel_uploads_playlist_id: self.channel_uploads_playlist_id@,
            channel_subscriber_count: self.channel_subscriber_count,
            channel_topics: topics_view(self.channel_topics@),
            channel_keywords: self.channel_keywords@,
            channel_trailer: self.channel_trailer@,
            made_for_kids: self.made_for_kids,
            status: self.status@,
            videos: videos_view(self.videos@),
            color: self.color@,
            last_updated: self.last_updated,
            video_count: self.video_count,
        }
    }
}

impl Channel {
    pub fn new(
        channel_id: String,
        channel_name: String,
        channel_description: String,
        channel_profil_image: String,
        channel_banner_image: String,
        channel_country: String,
        channel_uploads_playlist_id: String,
        channel_subscriber_count: u32,
        channel_topics: Vec<YoutubeTopic>,
        channel_keywords: String,
        channel_trailer: String,
        made_for_kids: bool,
        status: String,
        videos: Vec<Video>,
        color: String,
        last_updated: i64,
        video_count: u32,
    ) -> (c: Channel)
        ensures
            c.channel_id == channel_id,
            c.channel_name == channel_name,
            c.channel_description == channel_description,
            c.channel_profil_image == channel_profil_image,
            c.channel_banner_image == channel_banner_image,
            c.channel_country == channel_country,
            c.channel_uploads_playlist_id == channel_uploads_playlist_id,
            c.channel_subscriber_count == channel_subscriber_count,
            c.channel_topics == channel_topics,
            c.channel_keywords == channel_keywords,
            c.channel_trailer == channel_trailer,
            c.made_for_kids == made_for_kids,
            c.status == status,
            c.videos == videos,
            c.color == color,
            c.last_updated == last_updated,
            c.video_count == video_count,
    {
        Channel {
            channel_id,
            channel_name,
            channel_description,
            channel_profil_image,
            channel_banner_image,
            channel_country,
            channel_uploads_playlist_id,
            channel_subscriber_count,
            channel_topics,
            channel_keywords,
            channel_trailer,
            made_for_kids,
            status,
            videos,
            color,
            last_updated,
            video_count,
        }
    }
}

/// The body of a request to add a channel: its URL and how many videos to load.
#[derive(Debug)]
pub struct AddChannelRequestBody {
    pub channel_url: String,
    pub video_amount: u16,
}

} // verus!
