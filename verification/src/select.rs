//! Choosing the caption track to fetch.

use crate::errors::{ErrorView, YoutubeTranscriptError};
use crate::types::{CaptionTrack, TrackView, TranscriptConfig};
use vstd::prelude::*;
use vstd::string::StringExecFns;

verus! {

/// The language that the caller wants, if any: none without a configuration
/// and none with a configuration that names no language.
pub open spec fn wanted_language(config: Option<TranscriptConfig>) -> Option<Seq<char>> {
    match config {
        Some(c) => c@,
        None => None,
    }
}

/// The language codes of the tracks that have one, in track order.
pub open spec fn languages(tracks: Seq<TrackView>) -> Seq<Seq<char>>
    decreases tracks.len(),
{
    if tracks.len() == 0 {
        Seq::empty()
    } else {
        match tracks.last().language_code {
            Some(code) => languages(tracks.drop_last()).push(code),
            None => languages(tracks.drop_last()),
        }
    }
}

/// The language code of `track` is `lang`, character for character.
pub open spec fn speaks(track: TrackView, lang: Seq<char>) -> bool {
    track.language_code == Some(lang)
}

/// `tracks[at]` is the first track that speaks `lang`.
pub open spec fn first_speaking(tracks: Seq<TrackView>, lang: Seq<char>, at: int) -> bool {
    &&& 0 <= at < tracks.len()
    &&& speaks(tracks[at], lang)
    &&& forall|k: int| 0 <= k < at ==> !speaks(#[trigger] tracks[k], lang)
}

/// No track speaks `lang`.
pub open spec fn none_speaking(tracks: Seq<TrackView>, lang: Seq<char>) -> bool {
    forall|k: int| 0 <= k < tracks.len() ==> !speaks(#[trigger] tracks[k], lang)
}

/// The track to fetch. With a wanted language it is the first track that
/// speaks it, and where none does the error lists the languages on offer.
/// Without one it is the first track, and an empty list offers no
/// transcript.
pub open spec fn selection(tracks: Seq<TrackView>, lang: Option<Seq<char>>, video_id: Seq<char>)
    -> Result<TrackView, ErrorView> {
    match lang {
        Some(lang) => {
            if none_speaking(tracks, lang) {
                Err(ErrorView::TranscriptNotAvailableLanguage(lang, languages(tracks), video_id))
            } else {
                Ok(tracks[choose|at: int| first_speaking(tracks, lang, at)])
            }
        },
        None => {
            if tracks.len() > 0 {
                Ok(tracks[0])
            } else {
                Err(ErrorView::TranscriptNotAvailable(video_id))
            }
        },
    }
}

/// A result over a track, with its strings as sequences of characters.
pub open spec fn track_view(r: Result<&CaptionTrack, YoutubeTranscriptError>) -> Result<
    TrackView,
    ErrorView,
> {
    match r {
        Ok(track) => Ok(track.deep_view()),
        Err(e) => Err(e@),
    }
}

/// The language codes of the tracks that have one, in track order.
pub fn available_languages(tracks: &Vec<CaptionTrack>) -> (r: Vec<String>)
    ensures
        r.deep_view() == languages(tracks.deep_view()),
{
    let mut out: Vec<String> = Vec::new();
    let mut i: usize = 0;
    while i < tracks.len()
        invariant
            i <= tracks.len(),
            out.deep_view() == languages(tracks.deep_view().take(i as int)),
        decreases tracks.len() - i,
    {
        proof {
            assert(tracks.deep_view().take(i + 1).drop_last() =~= tracks.deep_view().take(
                i as int,
            ));
        }
        match &tracks[i].language_code {
            Some(code) => {
                out.push(code.clone());
            },
            None => {},
        }
        i += 1;
    }
    proof {
        assert(tracks.deep_view().take(tracks@.len() as int) =~= tracks.deep_view());
    }
    out
}

/// The first track whose language code is `lang`.
fn first_track_speaking<'a>(tracks: &'a Vec<CaptionTrack>, lang: &String) -> (r: Option<usize>)
    ensures
        match r {
            Some(at) => first_speaking(tracks.deep_view(), lang@, at as int),
            None => none_speaking(tracks.deep_view(), lang@),
        },
{
    let mut i: usize = 0;
    while i < tracks.len()
        invariant
            i <= tracks.len(),
            forall|k: int| 0 <= k < i ==> !speaks(#[trigger] tracks.deep_view()[k], lang@),
        decreases tracks.len() - i,
    {
        let found = match &tracks[i].language_code {
            Some(code) => *code == *lang,
            None => false,
        };
        if found {
            return Some(i);
        }
        i += 1;
    }
    None
}

/// Only one track is the first to speak a language.
pub proof fn lemma_first_speaking_unique(tracks: Seq<TrackView>, lang: Seq<char>, a: int, b: int)
    requires
        first_speaking(tracks, lang, a),
        first_speaking(tracks, lang, b),
    ensures
        a == b,
{
}

/// The track to fetch of `tracks`, for what `config` wants. Errors name
/// `video_id`.
pub fn select_track<'a>(
    tracks: &'a Vec<CaptionTrack>,
    config: Option<&TranscriptConfig>,
    video_id: &str,
) -> (r: Result<&'a CaptionTrack, YoutubeTranscriptError>)
    ensures
        track_view(r) == selection(
            tracks.deep_view(),
            wanted_language(
                match config {
                    Some(c) => Some(*c),
                    None => None,
                },
            ),
            video_id@,
        ),
{
    let wanted: Option<&String> = match config {
        Some(c) => c.lang.as_ref(),
        None => None,
    };
    match wanted {
        Some(lang) => match first_track_speaking(tracks, lang) {
            Some(at) => {
                proof {
                    let chosen = choose|k: int| first_speaking(tracks.deep_view(), lang@, k);
                    lemma_first_speaking_unique(tracks.deep_view(), lang@, at as int, chosen);
                }
                Ok(&tracks[at])
            },
            None => Err(
                YoutubeTranscriptError::TranscriptNotAvailableLanguage(
                    lang.clone(),
                    available_languages(tracks),
                    String::from_str(video_id),
                ),
            ),
        },
        None => {
            if tracks.len() > 0 {
                Ok(&tracks[0])
            } else {
                Err(YoutubeTranscriptError::TranscriptNotAvailable(String::from_str(video_id)))
            }
        },
    }
}

/// Where every track has a language code, the languages on offer are the
/// codes of the tracks, one for one.
pub proof fn lemma_languages_of_all(tracks: Seq<TrackView>)
    requires
        forall|k: int| 0 <= k < tracks.len() ==> (#[trigger] tracks[k]).language_code is Some,
    ensures
        languages(tracks) == tracks.map_values(|t: TrackView| t.language_code->0),
    decreases tracks.len(),
{
    if tracks.len() > 0 {
        lemma_languages_of_all(tracks.drop_last());
    }
}

/// A wanted language that no track of a list that is not empty speaks: the
/// choice fails and names the language, the languages on offer in track
/// order, and the video. Where every track has a language code, those are
/// the codes of all the tracks.
pub proof fn lemma_absent_language(tracks: Seq<TrackView>, lang: Seq<char>, video_id: Seq<char>)
    requires
        tracks.len() > 0,
        none_speaking(tracks, lang),
    ensures
        selection(tracks, Some(lang), video_id) == Err::<TrackView, ErrorView>(
            ErrorView::TranscriptNotAvailableLanguage(lang, languages(tracks), video_id),
        ),
        (forall|k: int| 0 <= k < tracks.len() ==> (#[trigger] tracks[k]).language_code is Some)
            ==> languages(tracks) == tracks.map_values(|t: TrackView| t.language_code->0),
{
    if forall|k: int| 0 <= k < tracks.len() ==> (#[trigger] tracks[k]).language_code is Some {
        lemma_languages_of_all(tracks);
    }
}

/// Without a wanted language the choice is the first track of a list that
/// is not empty, whatever its language.
pub proof fn lemma_first_track(tracks: Seq<TrackView>, video_id: Seq<char>)
    requires
        tracks.len() > 0,
    ensures
        selection(tracks, None, video_id) == Ok::<TrackView, ErrorView>(tracks[0]),
{
}

/// With a wanted language that some track speaks the choice is the first
/// track that speaks it.
pub proof fn lemma_present_language(
    tracks: Seq<TrackView>,
    lang: Seq<char>,
    video_id: Seq<char>,
    at: int,
)
    requires
        first_speaking(tracks, lang, at),
    ensures
        selection(tracks, Some(lang), video_id) == Ok::<TrackView, ErrorView>(tracks[at]),
{
    let chosen = choose|k: int| first_speaking(tracks, lang, k);
    lemma_first_speaking_unique(tracks, lang, at, chosen);
}

} // verus!
