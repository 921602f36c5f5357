//! From what the caller typed to the entries of the transcript.
//!
//! Two documents have to be fetched on the way: the watch page of the video
//! and the transcript of the chosen caption track. The library fetches
//! nothing itself. It says what to ask for, is handed what came back, and
//! decides what follows: `YoutubeTranscript::begin` leads to a page to ask
//! for, `AwaitingPage::receive` to a transcript to ask for, and
//! `AwaitingTranscript::receive` to the entries.

use crate::errors::{ErrorView, YoutubeTranscriptError};
use crate::page::{caption_tracks, tracks_of_page};
use crate::regex::USER_AGENT;
use crate::select::{select_track, selection, wanted_language};
use crate::transcript::{elements, entries, entries_of, has_elements};
use crate::types::{EntryView, TranscriptConfig, TranscriptResponse};
use crate::video_id::{candidate, resolve, video_id_of, ID_LENGTH};
use vstd::prelude::*;
use vstd::string::StringExecFns;

verus! {

/// The entry point of the library.
pub struct YoutubeTranscript;

/// A document to ask for: a GET of `url` with the header `User-Agent` and,
/// where a language is wanted, the header `Accept-Language`.
#[derive(Debug, Clone, PartialEq, Eq)]
pub struct Request {
    pub url: String,
    pub user_agent: String,
    pub accept_language: Option<String>,
}

/// What came of a request.
#[derive(Debug, Clone, PartialEq, Eq)]
pub enum Response {
    /// Nothing came back, or nothing that could be read as text.
    Failed,
    /// An answer came back. `success` tells whether its status was one of
    /// success.
    Received { success: bool, body: String },
}

/// A `Response` with its body as a sequence of characters.
pub enum ResponseView {
    Failed,
    Received { success: bool, body: Seq<char> },
}

impl View for Response {
    type V = ResponseView;

    open spec fn view(&self) -> ResponseView {
        match *self {
            Response::Failed => ResponseView::Failed,
            Response::Received { success, body } => ResponseView::Received { success, body: body@ },
        }
    }
}

/// The video is known; its watch page is to be fetched.
#[derive(Debug, Clone, PartialEq, Eq)]
pub struct AwaitingPage {
    /// The identifier of the video.
    pub video_id: String,
    /// The wanted language.
    pub lang: Option<String>,
}

/// The caption track is chosen; its transcript is to be fetched.
#[derive(Debug, Clone, PartialEq, Eq)]
pub struct AwaitingTranscript {
    /// The identifier of the video.
    pub video_id: String,
    /// The address of the transcript.
    pub url: String,
    /// The wanted language.
    pub lang: Option<String>,
    /// The language that the entries will carry: the wanted language, and
    /// without one the language of the first track that the page lists,
    /// whichever track was chosen.
    pub entry_lang: Option<String>,
}

/// An `AwaitingTranscript` with its strings as sequences of characters.
pub struct Plan {
    pub video_id: Seq<char>,
    pub url: Seq<char>,
    pub lang: Option<Seq<char>>,
    pub entry_lang: Option<Seq<char>>,
}

impl View for AwaitingTranscript {
    type V = Plan;

    open spec fn view(&self) -> Plan {
        Plan {
            video_id: self.video_id@,
            url: self.url@,
            lang: self.lang.deep_view(),
            entry_lang: self.entry_lang.deep_view(),
        }
    }
}

/// The address of the watch page of the video `id`.
pub open spec fn watch_url(id: Seq<char>) -> Seq<char> {
    "https://www.youtube.com/watch?v="@ + id
}

/// What follows from the watch page of the video `video_id` when `lang` is
/// wanted. A page that could not be fetched counts as captions switched
/// off; the status of one that could is not looked at. A chosen track
/// without an address offers no transcript.
pub open spec fn plan_of_page(response: ResponseView, lang: Option<Seq<char>>, video_id: Seq<char>)
    -> Result<Plan, ErrorView> {
    match response {
        ResponseView::Failed => Err(ErrorView::TranscriptDisabled(video_id)),
        ResponseView::Received { success, body } => match tracks_of_page(body, video_id) {
            Err(e) => Err(e),
            Ok(tracks) => match selection(tracks, lang, video_id) {
                Err(e) => Err(e),
                Ok(track) => match track.base_url {
                    None => Err(ErrorView::TranscriptNotAvailable(video_id)),
                    Some(url) => Ok(
                        Plan {
                            video_id,
                            url,
                            lang,
                            entry_lang: match lang {
                                Some(l) => Some(l),
                                None => tracks[0].language_code,
                            },
                        },
                    ),
                },
            },
        },
    }
}

/// What follows from the transcript document. One that could not be
/// fetched, or came with a status that is not one of success, offers no
/// transcript. Nothing follows, `None`, where there are entries and their
/// language cannot be told.
pub open spec fn entries_of_response(
    response: ResponseView,
    entry_lang: Option<Seq<char>>,
    video_id: Seq<char>,
) -> Option<Result<Seq<EntryView>, ErrorView>> {
    match response {
        ResponseView::Received { success, body } if success => match entry_lang {
            Some(lang) => Some(Ok(entries_of(body, lang))),
            None => if elements(body).len() == 0 {
                Some(Ok(Seq::empty()))
            } else {
                None
            },
        },
        _ => Some(Err(ErrorView::TranscriptNotAvailable(video_id))),
    }
}

/// A result over entries, with its strings as sequences of characters.
pub open spec fn entries_view(r: Result<Vec<TranscriptResponse>, YoutubeTranscriptError>) -> Result<
    Seq<EntryView>,
    ErrorView,
> {
    match r {
        Ok(found) => Ok(found.deep_view()),
        Err(e) => Err(e@),
    }
}

/// What follows from a transcript document, with its strings as sequences
/// of characters.
pub open spec fn outcome_view(
    r: Option<Result<Vec<TranscriptResponse>, YoutubeTranscriptError>>,
) -> Option<Result<Seq<EntryView>, ErrorView>> {
    match r {
        Some(found) => Some(entries_view(found)),
        None => None,
    }
}

/// A result over a plan, with its strings as sequences of characters.
pub open spec fn plan_view(r: Result<AwaitingTranscript, YoutubeTranscriptError>) -> Result<
    Plan,
    ErrorView,
> {
    match r {
        Ok(stage) => Ok(stage@),
        Err(e) => Err(e@),
    }
}

/// A copy of `s`.
fn copy_of(s: &Option<String>) -> (r: Option<String>)
    ensures
        r.deep_view() == s.deep_view(),
{
    match s {
        Some(s) => Some(s.clone()),
        None => None,
    }
}

impl AwaitingPage {
    /// The request for the watch page.
    pub fn request(&self) -> (r: Request)
        ensures
            r.url@ == watch_url(self.video_id@),
            r.user_agent@ == USER_AGENT@,
            r.accept_language.deep_view() == self.lang.deep_view(),
    {
        let mut url = String::from_str("https://www.youtube.com/watch?v=");
        url.append(self.video_id.as_str());
        Request {
            url,
            user_agent: String::from_str(USER_AGENT),
            accept_language: copy_of(&self.lang),
        }
    }

    /// What follows from the watch page: the transcript to fetch, or why
    /// there is none.
    pub fn receive(self, response: Response) -> (r: Result<
        AwaitingTranscript,
        YoutubeTranscriptError,
    >)
        ensures
            plan_view(r) == plan_of_page(response@, self.lang.deep_view(), self.video_id@),
    {
        let body = match response {
            Response::Failed => {
                return Err(YoutubeTranscriptError::TranscriptDisabled(self.video_id));
            },
            Response::Received { success, body } => body,
        };
        let tracks = match caption_tracks(body.as_str(), self.video_id.as_str()) {
            Ok(tracks) => tracks,
            Err(e) => {
                return Err(e);
            },
        };
        let config = TranscriptConfig { lang: copy_of(&self.lang) };
        let track = match select_track(&tracks, Some(&config), self.video_id.as_str()) {
            Ok(track) => track,
            Err(e) => {
                return Err(e);
            },
        };
        let url = match &track.base_url {
            Some(url) => url.clone(),
            None => {
                return Err(YoutubeTranscriptError::TranscriptNotAvailable(self.video_id));
            },
        };
        let entry_lang = match &self.lang {
            Some(l) => Some(l.clone()),
            None => {
                copy_of(&tracks[0].language_code)
            },
        };
        Ok(AwaitingTranscript { video_id: self.video_id, url, lang: self.lang, entry_lang })
    }
}

impl AwaitingTranscript {
    /// The request for the transcript.
    pub fn request(&self) -> (r: Request)
        ensures
            r.url@ == self.url@,
            r.user_agent@ == USER_AGENT@,
            r.accept_language.deep_view() == self.lang.deep_view(),
    {
        Request {
            url: self.url.clone(),
            user_agent: String::from_str(USER_AGENT),
            accept_language: copy_of(&self.lang),
        }
    }

    /// What follows from the transcript document: the entries, or why
    /// there are none. It is `None` exactly where there are entries and
    /// their language cannot be told: no language was wanted, and the first
    /// track of the page names none.
    pub fn receive(self, response: Response) -> (r: Option<
        Result<Vec<TranscriptResponse>, YoutubeTranscriptError>,
    >)
        ensures
            outcome_view(r) == entries_of_response(
                response@,
                self.entry_lang.deep_view(),
                self.video_id@,
            ),
    {
        match response {
            Response::Received { success, body } => {
                if success {
                    match &self.entry_lang {
                        Some(lang) => Some(Ok(entries(body.as_str(), lang.as_str()))),
                        None => {
                            if has_elements(body.as_str()) {
                                None
                            } else {
                                let none: Vec<TranscriptResponse> = Vec::new();
                                proof {
                                    assert(none.deep_view() =~= Seq::<EntryView>::empty());
                                }
                                Some(Ok(none))
                            }
                        },
                    }
                } else {
                    Some(Err(YoutubeTranscriptError::TranscriptNotAvailable(self.video_id)))
                }
            },
            Response::Failed => Some(
                Err(YoutubeTranscriptError::TranscriptNotAvailable(self.video_id)),
            ),
        }
    }
}

/// The transcript that the two documents give for what the caller typed:
/// the identifier, then the track that the page leads to, then the entries
/// of the transcript of that track; the first failure on the way ends it.
/// Nothing follows, `None`, where there are entries and their language
/// cannot be told.
pub open spec fn transcript_of(
    input: Seq<char>,
    lang: Option<Seq<char>>,
    page: ResponseView,
    transcript: ResponseView,
) -> Option<Result<Seq<EntryView>, ErrorView>> {
    match video_id_of(input) {
        None => Some(Err(ErrorView::InvalidVideoId)),
        Some(id) => match plan_of_page(page, lang, id) {
            Err(e) => Some(Err(e)),
            Ok(plan) => entries_of_response(transcript, plan.entry_lang, id),
        },
    }
}

/// The same input and the same two documents give the same entries in the
/// same order, or the same failure, however often they are read: whatever
/// `transcript_from_documents` may return for them has the same view.
pub proof fn lemma_same_documents_same_entries(
    first: Option<Result<Vec<TranscriptResponse>, YoutubeTranscriptError>>,
    second: Option<Result<Vec<TranscriptResponse>, YoutubeTranscriptError>>,
    input: Seq<char>,
    lang: Option<Seq<char>>,
    page: ResponseView,
    transcript: ResponseView,
)
    requires
        outcome_view(first) == transcript_of(input, lang, page, transcript),
        outcome_view(second) == transcript_of(input, lang, page, transcript),
    ensures
        outcome_view(first) == outcome_view(second),
{
}

impl YoutubeTranscript {
    /// The video identifier that `video_id` stands for: `video_id` itself
    /// where it has eleven characters, else the identifier in the leftmost
    /// address of a known shape. An identifier in an address has exactly
    /// eleven characters: a longer row of identifier characters gives none,
    /// not its first eleven. The error is `InvalidVideoId`, and it comes
    /// exactly where `video_id` has not eleven characters and holds no such
    /// address.
    pub fn retrieve_video_id(video_id: &str) -> (r: Result<String, YoutubeTranscriptError>)
        ensures
            match r {
                Ok(id) => video_id_of(video_id@) == Some(id@),
                Err(e) => e@ == ErrorView::InvalidVideoId && video_id_of(video_id@) is None,
            },
            video_id@.len() == ID_LENGTH ==> r is Ok && r->Ok_0@ == video_id@,
            r is Err <==> video_id@.len() != ID_LENGTH && forall|s: int, c: int|
                !candidate(video_id@, s, c),
    {
        match resolve(video_id) {
            Some(id) => Ok(id),
            None => Err(YoutubeTranscriptError::InvalidVideoId),
        }
    }

    /// Starts the retrieval of the transcript of the video that `video_id`
    /// stands for, in the language that `config` names if it names one.
    pub fn begin(video_id: &str, config: Option<TranscriptConfig>) -> (r: Result<
        AwaitingPage,
        YoutubeTranscriptError,
    >)
        ensures
            match r {
                Ok(stage) => video_id_of(video_id@) == Some(stage.video_id@)
                    && stage.lang.deep_view() == wanted_language(config),
                Err(e) => e@ == ErrorView::InvalidVideoId && video_id_of(video_id@) is None,
            },
    {
        let id = match Self::retrieve_video_id(video_id) {
            Ok(id) => id,
            Err(e) => {
                return Err(e);
            },
        };
        let lang = match config {
            Some(c) => c.lang,
            None => None,
        };
        Ok(AwaitingPage { video_id: id, lang })
    }

    /// The transcript that the watch page `page` and the transcript document
    /// `transcript` give for `video_id` and `config`. The result depends on
    /// these four alone. It is `None` exactly where there are entries and
    /// their language cannot be told.
    pub fn transcript_from_documents(
        video_id: &str,
        config: Option<TranscriptConfig>,
        page: Response,
        transcript: Response,
    ) -> (r: Option<Result<Vec<TranscriptResponse>, YoutubeTranscriptError>>)
        ensures
            outcome_view(r) == transcript_of(
                video_id@,
                wanted_language(config),
                page@,
                transcript@,
            ),
    {
        let stage = match Self::begin(video_id, config) {
            Ok(stage) => stage,
            Err(e) => {
                return Some(Err(e));
            },
        };
        let stage = match stage.receive(page) {
            Ok(stage) => stage,
            Err(e) => {
                return Some(Err(e));
            },
        };
        stage.receive(transcript)
    }
}

} // verus!
