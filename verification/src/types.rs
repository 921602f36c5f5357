//! The values that pass through the retrieval of a transcript.

use vstd::prelude::*;

verus! {

/// What the caller asks for.
#[derive(Debug, Clone, PartialEq, Eq)]
pub struct TranscriptConfig {
    /// The language code of the wanted transcript, such as `en` or `fr`.
    pub lang: Option<String>,
}

/// One language variant of a video's captions, as the watch page lists it.
/// A field is `None` where the page gives no string for it.
#[derive(Debug, Clone, PartialEq, Eq)]
pub struct CaptionTrack {
    /// The track's language code.
    pub language_code: Option<String>,
    /// The address from which the track's transcript document is fetched.
    pub base_url: Option<String>,
}

/// One timed segment of a transcript. `offset` and `duration` hold the
/// `start` and `dur` attributes exactly as the transcript document writes
/// them: decimal numbers of seconds. A reader takes one that is
/// unreadable, or that is negative, as zero.
#[derive(Debug, Clone, PartialEq, Eq)]
pub struct TranscriptResponse {
    /// The text of the segment, as written in the document.
    pub text: String,
    /// How long the text is shown: the `dur` attribute.
    pub duration: String,
    /// When the text appears: the `start` attribute.
    pub offset: String,
    /// The language code of the transcript.
    pub lang: String,
}

/// A `CaptionTrack` with its strings as sequences of characters.
pub struct TrackView {
    pub language_code: Option<Seq<char>>,
    pub base_url: Option<Seq<char>>,
}

/// A `TranscriptResponse` with its strings as sequences of characters.
pub struct EntryView {
    pub text: Seq<char>,
    pub duration: Seq<char>,
    pub offset: Seq<char>,
    pub lang: Seq<char>,
}

impl View for TranscriptConfig {
    type V = Option<Seq<char>>;

    /// The wanted language.
    open spec fn view(&self) -> Option<Seq<char>> {
        self.lang.deep_view()
    }
}

impl DeepView for CaptionTrack {
    type V = TrackView;

    open spec fn deep_view(&self) -> TrackView {
        TrackView {
            language_code: self.language_code.deep_view(),
            base_url: self.base_url.deep_view(),
        }
    }
}

impl DeepView for TranscriptResponse {
    type V = EntryView;

    open spec fn deep_view(&self) -> EntryView {
        EntryView {
            text: self.text@,
            duration: self.duration@,
            offset: self.offset@,
            lang: self.lang@,
        }
    }
}

} // verus!
