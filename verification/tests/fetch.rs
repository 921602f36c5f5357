use ytranscript::{
    AwaitingPage, AwaitingTranscript, Request, Response, TranscriptConfig, TranscriptResponse,
    YoutubeTranscript, YoutubeTranscriptError, USER_AGENT,
};

const PAGE: &str = "<html><script>var ytInitialPlayerResponse = {\"playabilityStatus\":{\"status\":\"OK\"},\
\"captions\":{\"playerCaptionsTracklistRenderer\":{\"captionTracks\":[\
{\"baseUrl\":\"https://www.youtube.com/api/timedtext?v=dQw4w9WgXcQ\\u0026lang=en\",\"languageCode\":\"en\"},\
{\"baseUrl\":\"https://www.youtube.com/api/timedtext?v=dQw4w9WgXcQ\\u0026lang=fr\",\"languageCode\":\"fr\"},\
{\"languageCode\":\"de\"}]}},\
\"videoDetails\":{\"videoId\":\"dQw4w9WgXcQ\"}};</script></html>";

const NAMELESS_PAGE: &str = "\"captions\":{\"playerCaptionsTracklistRenderer\":{\"captionTracks\":[\
{\"baseUrl\":\"u\"}]}},\"videoDetails\":{}";

const TRANSCRIPT: &str = "<?xml version=\"1.0\" encoding=\"utf-8\" ?><transcript>\
<text start=\"1.5\" dur=\"2.0\">Hi</text><text start=\"3.5\" dur=\"1.0\">Bye</text></transcript>";

fn received(body: &str) -> Response {
    Response::Received { success: true, body: body.to_string() }
}

fn wanting(lang: &str) -> Option<TranscriptConfig> {
    Some(TranscriptConfig { lang: Some(lang.to_string()) })
}

fn entry(text: &str, offset: &str, duration: &str, lang: &str) -> TranscriptResponse {
    TranscriptResponse {
        text: text.to_string(),
        duration: duration.to_string(),
        offset: offset.to_string(),
        lang: lang.to_string(),
    }
}

fn not_available() -> YoutubeTranscriptError {
    YoutubeTranscriptError::TranscriptNotAvailable("dQw4w9WgXcQ".to_string())
}

#[test]
fn begin_resolves_the_identifier() {
    assert_eq!(
        YoutubeTranscript::begin("https://youtu.be/dQw4w9WgXcQ", wanting("fr")),
        Ok(AwaitingPage { video_id: "dQw4w9WgXcQ".to_string(), lang: Some("fr".to_string()) })
    );
    assert_eq!(
        YoutubeTranscript::begin("dQw4w9WgXcQ", None),
        Ok(AwaitingPage { video_id: "dQw4w9WgXcQ".to_string(), lang: None })
    );
    assert_eq!(
        YoutubeTranscript::begin("dQw4w9WgXcQ", Some(TranscriptConfig { lang: None })),
        Ok(AwaitingPage { video_id: "dQw4w9WgXcQ".to_string(), lang: None })
    );
    assert_eq!(
        YoutubeTranscript::begin("https://www.example.com/", None),
        Err(YoutubeTranscriptError::InvalidVideoId)
    );
}

#[test]
fn user_agent_is_that_of_a_desktop_browser() {
    assert_eq!(
        USER_AGENT,
        "Mozilla/5.0 (Macintosh; Intel Mac OS X 10_15_4) AppleWebKit/537.36 (KHTML, like Gecko) Chrome/85.0.4183.83 Safari/537.36,gzip(gfe)"
    );
}

#[test]
fn page_request() {
    let stage = YoutubeTranscript::begin("dQw4w9WgXcQ", wanting("fr")).unwrap();
    assert_eq!(
        stage.request(),
        Request {
            url: "https://www.youtube.com/watch?v=dQw4w9WgXcQ".to_string(),
            user_agent: USER_AGENT.to_string(),
            accept_language: Some("fr".to_string()),
        }
    );
    let stage = YoutubeTranscript::begin("dQw4w9WgXcQ", None).unwrap();
    assert_eq!(stage.request().accept_language, None);
    assert!(stage.request().user_agent.starts_with("Mozilla/5.0 "));
}

#[test]
fn page_leads_to_the_track_of_the_wanted_language() {
    let stage = YoutubeTranscript::begin("dQw4w9WgXcQ", wanting("fr")).unwrap();
    let stage = stage.receive(received(PAGE)).unwrap();
    assert_eq!(
        stage,
        AwaitingTranscript {
            video_id: "dQw4w9WgXcQ".to_string(),
            url: "https://www.youtube.com/api/timedtext?v=dQw4w9WgXcQ&lang=fr".to_string(),
            lang: Some("fr".to_string()),
            entry_lang: Some("fr".to_string()),
        }
    );
    assert_eq!(
        stage.request(),
        Request {
            url: "https://www.youtube.com/api/timedtext?v=dQw4w9WgXcQ&lang=fr".to_string(),
            user_agent: USER_AGENT.to_string(),
            accept_language: Some("fr".to_string()),
        }
    );
}

#[test]
fn page_leads_to_the_first_track_without_a_wanted_language() {
    let stage = YoutubeTranscript::begin("dQw4w9WgXcQ", None).unwrap();
    let stage = stage.receive(received(PAGE)).unwrap();
    assert_eq!(stage.url, "https://www.youtube.com/api/timedtext?v=dQw4w9WgXcQ&lang=en");
    assert_eq!(stage.lang, None);
    assert_eq!(stage.entry_lang, Some("en".to_string()));
    assert_eq!(stage.request().accept_language, None);
}

#[test]
fn page_status_is_not_looked_at() {
    let stage = YoutubeTranscript::begin("dQw4w9WgXcQ", None).unwrap();
    let page = Response::Received { success: false, body: PAGE.to_string() };
    assert!(stage.receive(page).is_ok());
}

#[test]
fn page_that_was_not_fetched_tells_of_disabled_transcript() {
    let stage = YoutubeTranscript::begin("dQw4w9WgXcQ", None).unwrap();
    assert_eq!(
        stage.receive(Response::Failed),
        Err(YoutubeTranscriptError::TranscriptDisabled("dQw4w9WgXcQ".to_string()))
    );
}

#[test]
fn page_errors_come_through() {
    let stage = YoutubeTranscript::begin("dQw4w9WgXcQ", None).unwrap();
    assert_eq!(
        stage.clone().receive(received("class=\"g-recaptcha\"")),
        Err(YoutubeTranscriptError::TooManyRequests)
    );
    assert_eq!(
        stage.receive(received("")),
        Err(YoutubeTranscriptError::VideoUnavailable("dQw4w9WgXcQ".to_string()))
    );
    let stage = YoutubeTranscript::begin("dQw4w9WgXcQ", wanting("es")).unwrap();
    assert_eq!(
        stage.receive(received(PAGE)),
        Err(YoutubeTranscriptError::TranscriptNotAvailableLanguage(
            "es".to_string(),
            vec!["en".to_string(), "fr".to_string(), "de".to_string()],
            "dQw4w9WgXcQ".to_string(),
        ))
    );
}

#[test]
fn errors_name_the_identifier_not_the_address() {
    let stage = YoutubeTranscript::begin("https://youtu.be/dQw4w9WgXcQ", None).unwrap();
    assert_eq!(
        stage.receive(Response::Failed),
        Err(YoutubeTranscriptError::TranscriptDisabled("dQw4w9WgXcQ".to_string()))
    );
}

#[test]
fn chosen_track_without_address_offers_no_transcript() {
    let stage = YoutubeTranscript::begin("dQw4w9WgXcQ", wanting("de")).unwrap();
    assert_eq!(stage.receive(received(PAGE)), Err(not_available()));
}

#[test]
fn empty_track_list_offers_no_transcript() {
    let page = "\"captions\":{\"playerCaptionsTracklistRenderer\":{\"captionTracks\":[]}},\"videoDetails\":{}";
    let stage = YoutubeTranscript::begin("dQw4w9WgXcQ", None).unwrap();
    assert_eq!(stage.receive(received(page)), Err(not_available()));
}

#[test]
fn transcript_gives_the_entries() {
    let stage = YoutubeTranscript::begin("dQw4w9WgXcQ", wanting("fr")).unwrap();
    let stage = stage.receive(received(PAGE)).unwrap();
    assert_eq!(
        stage.receive(received(TRANSCRIPT)),
        Some(Ok(vec![entry("Hi", "1.5", "2.0", "fr"), entry("Bye", "3.5", "1.0", "fr")]))
    );
}

#[test]
fn transcript_that_was_not_fetched_offers_no_transcript() {
    let stage = YoutubeTranscript::begin("dQw4w9WgXcQ", None).unwrap();
    let stage = stage.receive(received(PAGE)).unwrap();
    assert_eq!(stage.clone().receive(Response::Failed), Some(Err(not_available())));
    let refused = Response::Received { success: false, body: TRANSCRIPT.to_string() };
    assert_eq!(stage.receive(refused), Some(Err(not_available())));
}

#[test]
fn entries_carry_the_language_of_the_first_track() {
    // Without a wanted language the first track is fetched, and its
    // language marks the entries.
    let found = YoutubeTranscript::transcript_from_documents(
        "dQw4w9WgXcQ",
        None,
        received(PAGE),
        received(TRANSCRIPT),
    );
    assert_eq!(found, Some(Ok(vec![entry("Hi", "1.5", "2.0", "en"), entry("Bye", "3.5", "1.0", "en")])));
}

#[test]
fn language_that_cannot_be_told() {
    let stage = YoutubeTranscript::begin("dQw4w9WgXcQ", None).unwrap();
    let stage = stage.receive(received(NAMELESS_PAGE)).unwrap();
    assert_eq!(stage.entry_lang, None);
    assert_eq!(stage.clone().receive(received(TRANSCRIPT)), None);
    assert_eq!(stage.clone().receive(received("<transcript></transcript>")), Some(Ok(vec![])));
    assert_eq!(stage.clone().receive(Response::Failed), Some(Err(not_available())));
    let refused = Response::Received { success: false, body: TRANSCRIPT.to_string() };
    assert_eq!(stage.receive(refused), Some(Err(not_available())));
    assert_eq!(
        YoutubeTranscript::transcript_from_documents(
            "dQw4w9WgXcQ",
            None,
            received(NAMELESS_PAGE),
            received(TRANSCRIPT),
        ),
        None
    );
    assert_eq!(
        YoutubeTranscript::transcript_from_documents(
            "dQw4w9WgXcQ",
            None,
            received(NAMELESS_PAGE),
            Response::Failed,
        ),
        Some(Err(not_available()))
    );
    assert_eq!(
        YoutubeTranscript::transcript_from_documents(
            "dQw4w9WgXcQ",
            wanting("en"),
            received(NAMELESS_PAGE),
            received(TRANSCRIPT),
        ),
        Some(Err(YoutubeTranscriptError::TranscriptNotAvailableLanguage(
            "en".to_string(),
            vec![],
            "dQw4w9WgXcQ".to_string(),
        )))
    );
}

#[test]
fn first_failure_ends_the_retrieval() {
    assert_eq!(
        YoutubeTranscript::transcript_from_documents(
            "https://www.example.com/watch?v=dQw4w9WgXcQ",
            None,
            received(PAGE),
            received(TRANSCRIPT),
        ),
        Some(Err(YoutubeTranscriptError::InvalidVideoId))
    );
    assert_eq!(
        YoutubeTranscript::transcript_from_documents(
            "dQw4w9WgXcQ",
            None,
            Response::Failed,
            received(TRANSCRIPT),
        ),
        Some(Err(YoutubeTranscriptError::TranscriptDisabled("dQw4w9WgXcQ".to_string())))
    );
    assert_eq!(
        YoutubeTranscript::transcript_from_documents(
            "dQw4w9WgXcQ",
            None,
            received(PAGE),
            Response::Failed,
        ),
        Some(Err(not_available()))
    );
}

#[test]
fn same_documents_give_the_same_entries() {
    let first = YoutubeTranscript::transcript_from_documents(
        "https://www.youtube.com/watch?v=dQw4w9WgXcQ",
        wanting("fr"),
        received(PAGE),
        received(TRANSCRIPT),
    );
    for _ in 0..5 {
        let again = YoutubeTranscript::transcript_from_documents(
            "https://www.youtube.com/watch?v=dQw4w9WgXcQ",
            wanting("fr"),
            received(PAGE),
            received(TRANSCRIPT),
        );
        assert_eq!(again, first);
    }
    assert_eq!(first, Some(Ok(vec![entry("Hi", "1.5", "2.0", "fr"), entry("Bye", "3.5", "1.0", "fr")])));
}
