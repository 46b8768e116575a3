//! Channel and video bookkeeping for a YouTube map backend: reading YouTube
//! API responses into channel and video records, planning the paged video
//! requests, and deciding when a stored channel must be refreshed.

pub mod text;
pub mod model;
pub mod json;
pub mod clock;
pub mod request;
pub mod youtube_api;
pub mod playlist;
pub mod router;
