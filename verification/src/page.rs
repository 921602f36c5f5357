//! Reading the caption tracks out of a watch page.
//!
//! A watch page embeds a JSON document, after the marker `"captions":`, that
//! lists the caption tracks of the video. This module cuts that document
//! out, has it read, and takes the tracks from it; where the page holds no
//! such document it tells why.

use crate::errors::{ErrorView, YoutubeTranscriptError};
use crate::json::{json_document, JsonValue};
use crate::text::{
    after, before, chars_of, contains, includes, part_after, part_before, string_of, strip, without,
};
use crate::types::{CaptionTrack, TrackView};
use vstd::prelude::*;
use vstd::string::StringExecFns;

verus! {

/// What stands before the captions document.
pub open spec fn captions_marker() -> Seq<char> {
    "\"captions\":"@
}

/// What follows the captions document.
pub open spec fn details_marker() -> Seq<char> {
    ",\"videoDetails"@
}

/// What a page holds that asks for a captcha.
pub open spec fn captcha_marker() -> Seq<char> {
    "class=\"g-recaptcha\""@
}

/// What the page of every existing video holds.
pub open spec fn playability_marker() -> Seq<char> {
    "\"playabilityStatus\":"@
}

/// The text of the captions document of a page: what stands between the
/// first captions marker and the next one, up to the details marker where
/// there is one in between, with the line ends taken out.
pub open spec fn captions_text(body: Seq<char>) -> Option<Seq<char>> {
    match after(body, captions_marker()) {
        Some(rest) => Some(
            without(before(before(rest, captions_marker()), details_marker()), '\n'),
        ),
        None => None,
    }
}

/// Why a page without a captions marker has none: a captcha first, then a
/// video that does not exist, then captions that are switched off.
pub open spec fn page_fault(body: Seq<char>, video_id: Seq<char>) -> ErrorView {
    if contains(body, captcha_marker()) {
        ErrorView::TooManyRequests
    } else if !contains(body, playability_marker()) {
        ErrorView::VideoUnavailable(video_id)
    } else {
        ErrorView::TranscriptDisabled(video_id)
    }
}

/// The track that one item of the track list describes.
pub open spec fn track_of(item: JsonValue) -> TrackView {
    TrackView {
        language_code: item.text_member("languageCode"@),
        base_url: item.text_member("baseUrl"@),
    }
}

/// The tracks that a captions document lists. Without a document, or
/// without the renderer in it, captions are switched off; a renderer whose
/// `captionTracks` is missing or no array offers no transcript.
pub open spec fn tracks_of_document(document: Option<JsonValue>, video_id: Seq<char>) -> Result<
    Seq<TrackView>,
    ErrorView,
> {
    match document {
        None => Err(ErrorView::TranscriptDisabled(video_id)),
        Some(root) => match root.member("playerCaptionsTracklistRenderer"@) {
            None => Err(ErrorView::TranscriptDisabled(video_id)),
            Some(renderer) => match renderer.member("captionTracks"@) {
                Some(JsonValue::Array(items)) => Ok(items@.map_values(|item| track_of(item))),
                _ => Err(ErrorView::TranscriptNotAvailable(video_id)),
            },
        },
    }
}

/// The tracks that a watch page lists.
pub open spec fn tracks_of_page(body: Seq<char>, video_id: Seq<char>) -> Result<
    Seq<TrackView>,
    ErrorView,
> {
    match captions_text(body) {
        None => Err(page_fault(body, video_id)),
        Some(text) => tracks_of_document(json_document(text), video_id),
    }
}

/// A result over tracks, with its strings as sequences of characters.
pub open spec fn tracks_view(r: Result<Vec<CaptionTrack>, YoutubeTranscriptError>) -> Result<
    Seq<TrackView>,
    ErrorView,
> {
    match r {
        Ok(tracks) => Ok(tracks.deep_view()),
        Err(e) => Err(e@),
    }
}

/// The text of the captions document of the page `body`.
pub fn captions_document(body: &str) -> (r: Option<String>)
    ensures
        r.deep_view() == captions_text(body@),
{
    let page = chars_of(body);
    let marker = chars_of("\"captions\":");
    let details = chars_of(",\"videoDetails");
    match part_after(page.as_slice(), marker.as_slice()) {
        Some(rest) => {
            let piece = part_before(part_before(rest, marker.as_slice()), details.as_slice());
            let text = strip(piece, '\n');
            Some(string_of(text.as_slice()))
        },
        None => None,
    }
}

/// Why the page `body`, which has no captions marker, has none.
pub fn classify_page(body: &str, video_id: &str) -> (e: YoutubeTranscriptError)
    ensures
        e@ == page_fault(body@, video_id@),
{
    let page = chars_of(body);
    let captcha = chars_of("class=\"g-recaptcha\"");
    let playability = chars_of("\"playabilityStatus\":");
    if includes(page.as_slice(), captcha.as_slice()) {
        YoutubeTranscriptError::TooManyRequests
    } else if !includes(page.as_slice(), playability.as_slice()) {
        YoutubeTranscriptError::VideoUnavailable(String::from_str(video_id))
    } else {
        YoutubeTranscriptError::TranscriptDisabled(String::from_str(video_id))
    }
}

/// The tracks that the captions document lists.
pub fn tracks_in_document(document: Option<&JsonValue>, video_id: &str) -> (r: Result<
    Vec<CaptionTrack>,
    YoutubeTranscriptError,
>)
    ensures
        tracks_view(r) == tracks_of_document(
            match document {
                Some(root) => Some(*root),
                None => None,
            },
            video_id@,
        ),
{
    let root = match document {
        Some(root) => root,
        None => {
            return Err(YoutubeTranscriptError::TranscriptDisabled(String::from_str(video_id)));
        },
    };
    let renderer = match root.get("playerCaptionsTracklistRenderer") {
        Some(renderer) => renderer,
        None => {
            return Err(YoutubeTranscriptError::TranscriptDisabled(String::from_str(video_id)));
        },
    };
    let list = match renderer.get("captionTracks") {
        Some(list) => list,
        None => {
            return Err(YoutubeTranscriptError::TranscriptNotAvailable(String::from_str(video_id)));
        },
    };
    let items = match list.as_array() {
        Some(items) => items,
        None => {
            return Err(YoutubeTranscriptError::TranscriptNotAvailable(String::from_str(video_id)));
        },
    };
    let mut tracks: Vec<CaptionTrack> = Vec::new();
    let mut i: usize = 0;
    while i < items.len()
        invariant
            i <= items.len(),
            tracks.len() == i,
            forall|k: int| 0 <= k < i ==> (#[trigger] tracks@[k]).deep_view() == track_of(items@[k]),
        decreases items.len() - i,
    {
        let track = CaptionTrack {
            language_code: items[i].get_str("languageCode"),
            base_url: items[i].get_str("baseUrl"),
        };
        tracks.push(track);
        i += 1;
    }
    proof {
        assert(tracks.deep_view() =~= items@.map_values(|item| track_of(item)));
    }
    Ok(tracks)
}

/// The tracks that the watch page `body` lists. Errors name `video_id`.
pub fn caption_tracks(body: &str, video_id: &str) -> (r: Result<
    Vec<CaptionTrack>,
    YoutubeTranscriptError,
>)
    ensures
        tracks_view(r) == tracks_of_page(body@, video_id@),
{
    match captions_document(body) {
        None => Err(classify_page(body, video_id)),
        Some(text) => {
            let document = JsonValue::parse(text.as_str());
            tracks_in_document(document.as_ref(), video_id)
        },
    }
}

/// A page that asks for a captcha and has no captions marker tells of too
/// many requests.
pub proof fn lemma_captcha_page(body: Seq<char>, video_id: Seq<char>)
    requires
        contains(body, captcha_marker()),
        !contains(body, captions_marker()),
    ensures
        tracks_of_page(body, video_id) == Err::<Seq<TrackView>, ErrorView>(
            ErrorView::TooManyRequests,
        ),
{
}

/// A page with neither a captions marker nor a playability marker, and
/// that asks for no captcha, tells of a video that is not there.
pub proof fn lemma_missing_video_page(body: Seq<char>, video_id: Seq<char>)
    requires
        !contains(body, captions_marker()),
        !contains(body, playability_marker()),
        !contains(body, captcha_marker()),
    ensures
        tracks_of_page(body, video_id) == Err::<Seq<TrackView>, ErrorView>(
            ErrorView::VideoUnavailable(video_id),
        ),
{
}

} // verus!
