//! The ways in which reading a transcript can fail.

use vstd::prelude::*;

verus! {

/// Why no transcript was returned.
#[derive(Debug, Clone, PartialEq, Eq)]
pub enum YoutubeTranscriptError {
    /// YouTube answered with a captcha: too many requests came from this address.
    TooManyRequests,
    /// The video does not exist, is private or was removed. Holds the video identifier.
    VideoUnavailable(String),
    /// The video exists but offers no captions, or its watch page could not
    /// be fetched. Holds the video identifier.
    TranscriptDisabled(String),
    /// The captions metadata lists no usable track, or the track could not be
    /// fetched. Holds the video identifier.
    TranscriptNotAvailable(String),
    /// No track has the requested language. Holds the requested language, the
    /// languages on offer in track order, and the video identifier.
    TranscriptNotAvailableLanguage(String, Vec<String>, String),
    /// The input is neither an identifier nor a URL of a known shape.
    InvalidVideoId,
}

/// A `YoutubeTranscriptError` with its strings as sequences of characters.
pub enum ErrorView {
    TooManyRequests,
    VideoUnavailable(Seq<char>),
    TranscriptDisabled(Seq<char>),
    TranscriptNotAvailable(Seq<char>),
    TranscriptNotAvailableLanguage(Seq<char>, Seq<Seq<char>>, Seq<char>),
    InvalidVideoId,
}

impl View for YoutubeTranscriptError {
    type V = ErrorView;

    open spec fn view(&self) -> ErrorView {
        match *self {
            YoutubeTranscriptError::TooManyRequests => ErrorView::TooManyRequests,
            YoutubeTranscriptError::VideoUnavailable(id) => ErrorView::VideoUnavailable(id@),
            YoutubeTranscriptError::TranscriptDisabled(id) => ErrorView::TranscriptDisabled(id@),
            YoutubeTranscriptError::TranscriptNotAvailable(id) => ErrorView::TranscriptNotAvailable(
                id@,
            ),
            YoutubeTranscriptError::TranscriptNotAvailableLanguage(lang, available, id) => {
                ErrorView::TranscriptNotAvailableLanguage(lang@, available.deep_view(), id@)
            },
            YoutubeTranscriptError::InvalidVideoId => ErrorView::InvalidVideoId,
        }
    }
}

} // verus!
