//! Resolving a YouTube video identifier and reading the caption transcript
//! out of the documents that YouTube serves for it.
//!
//! The library decides and computes; it sends nothing. A caller goes
//! through `fetch`: `YoutubeTranscript::begin` reads the identifier out of
//! what was typed and names the watch page to ask for, `AwaitingPage::receive`
//! reads the caption tracks of the page, chooses one and names the
//! transcript to ask for, and `AwaitingTranscript::receive` reads the
//! entries.
//!
//! * `video_id` reads a video identifier, and `shapes` says what that
//!   reading gives for addresses of each known shape.
//! * `page` cuts the captions document out of a watch page and takes the
//!   caption tracks from it, with `json` for the document itself.
//! * `select` chooses the track.
//! * `transcript` reads the entries of a transcript document.
//! * `text` searches and cuts sequences of characters for all of them.
//! * `regex` holds the patterns that `video_id` and `transcript` go by.

pub mod errors;
pub mod fetch;
pub mod json;
pub mod page;
pub mod regex;
pub mod select;
pub mod shapes;
pub mod text;
pub mod transcript;
pub mod types;
pub mod video_id;

pub use crate::errors::{ErrorView, YoutubeTranscriptError};
pub use crate::fetch::{AwaitingPage, AwaitingTranscript, Request, Response, YoutubeTranscript};
pub use crate::json::{JsonMember, JsonValue};
pub use crate::regex::{RE_XML_TRANSCRIPT, RE_YOUTUBE, USER_AGENT};
pub use crate::types::{CaptionTrack, EntryView, TrackView, TranscriptConfig, TranscriptResponse};
