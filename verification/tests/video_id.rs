use regex::Regex;
use ytranscript::video_id::{has_id_at, id_char, space};
use ytranscript::{YoutubeTranscript, YoutubeTranscriptError, RE_YOUTUBE};

fn id_of(input: &str) -> Option<String> {
    YoutubeTranscript::retrieve_video_id(input).ok()
}

/// What the pattern gives, by the `regex` crate.
fn by_pattern(pattern: &Regex, input: &str) -> Option<String> {
    if input.chars().count() == 11 {
        return Some(input.to_string());
    }
    pattern.captures(input).and_then(|c| c.get(1)).map(|m| m.as_str().to_string())
}

/// A small generator of numbers, the same on every run.
struct Numbers(u64);

impl Numbers {
    fn next(&mut self, below: usize) -> usize {
        self.0 = self.0.wrapping_mul(6364136223846793005).wrapping_add(1442695040888963407);
        ((self.0 >> 33) as usize) % below
    }
}

/// Compares on `input` and on every input that adds up to `depth` of
/// `pieces` to it.
fn compare_all(pattern: &Regex, pieces: &[&str], depth: usize, input: &mut String) {
    assert_eq!(id_of(input), by_pattern(pattern, input), "input {:?}", input);
    if depth == 0 {
        return;
    }
    for piece in pieces {
        let len = input.len();
        input.push_str(piece);
        compare_all(pattern, pieces, depth - 1, input);
        input.truncate(len);
    }
}

#[test]
fn test_retrieve_video_id_from_url() {
    let url = "https://www.youtube.com/watch?v=dQw4w9WgXcQ";
    let result = YoutubeTranscript::retrieve_video_id(url);
    assert_eq!(result.unwrap(), "dQw4w9WgXcQ");
}

#[test]
fn test_retrieve_video_id_from_invalid_url() {
    let url = "https://www.example.com/watch?v=dQw4w9WgXcQ";
    let result = YoutubeTranscript::retrieve_video_id(url);
    assert!(result.is_err());
}

#[test]
fn invalid_input_gives_invalid_video_id() {
    assert_eq!(
        YoutubeTranscript::retrieve_video_id("https://www.example.com/watch?v=dQw4w9WgXcQ"),
        Err(YoutubeTranscriptError::InvalidVideoId)
    );
    assert_eq!(YoutubeTranscript::retrieve_video_id(""), Err(YoutubeTranscriptError::InvalidVideoId));
    assert_eq!(
        YoutubeTranscript::retrieve_video_id("not an address"),
        Err(YoutubeTranscriptError::InvalidVideoId)
    );
}

#[test]
fn eleven_characters_come_back_unchanged() {
    assert_eq!(id_of("dQw4w9WgXcQ"), Some("dQw4w9WgXcQ".to_string()));
    assert_eq!(id_of("???????????"), Some("???????????".to_string()));
    assert_eq!(id_of("a b/c\"d&e?f"), Some("a b/c\"d&e?f".to_string()));
    assert_eq!(id_of("youtu.be/ab"), Some("youtu.be/ab".to_string()));
    assert_eq!(id_of("           "), Some("           ".to_string()));
}

#[test]
fn eleven_characters_are_counted_not_bytes() {
    // Eleven characters in twenty-two bytes.
    assert_eq!(id_of("ééééééééééé"), Some("ééééééééééé".to_string()));
    // Eleven bytes in six characters.
    assert_eq!(id_of("ééééé1"), None);
}

#[test]
fn ten_and_twelve_characters_are_no_identifier() {
    assert_eq!(id_of("dQw4w9WgXc"), None);
    assert_eq!(id_of("dQw4w9WgXcQQ"), None);
}

#[test]
fn watch_address() {
    assert_eq!(id_of("https://www.youtube.com/watch?v=dQw4w9WgXcQ"), Some("dQw4w9WgXcQ".to_string()));
    assert_eq!(id_of("youtube.com/watch?v=dQw4w9WgXcQ"), Some("dQw4w9WgXcQ".to_string()));
    assert_eq!(
        id_of("https://www.youtube.com/watch?feature=share&v=dQw4w9WgXcQ"),
        Some("dQw4w9WgXcQ".to_string())
    );
    assert_eq!(
        id_of("https://www.youtube.com/watch?v=dQw4w9WgXcQ&t=42s"),
        Some("dQw4w9WgXcQ".to_string())
    );
}

#[test]
fn embed_and_v_addresses() {
    assert_eq!(id_of("https://www.youtube.com/embed/dQw4w9WgXcQ"), Some("dQw4w9WgXcQ".to_string()));
    assert_eq!(id_of("https://www.youtube.com/v/dQw4w9WgXcQ"), Some("dQw4w9WgXcQ".to_string()));
    assert_eq!(id_of("https://www.youtube.com/e/dQw4w9WgXcQ"), Some("dQw4w9WgXcQ".to_string()));
    assert_eq!(
        id_of("https://www.youtube.com/embed/dQw4w9WgXcQ?start=3"),
        Some("dQw4w9WgXcQ".to_string())
    );
}

#[test]
fn channel_path_address() {
    assert_eq!(
        id_of("https://www.youtube.com/user/videos/dQw4w9WgXcQ"),
        Some("dQw4w9WgXcQ".to_string())
    );
    assert_eq!(
        id_of("https://www.youtube.com/c/some/deep/path/dQw4w9WgXcQ"),
        Some("dQw4w9WgXcQ".to_string())
    );
}

#[test]
fn short_address() {
    assert_eq!(id_of("https://youtu.be/dQw4w9WgXcQ"), Some("dQw4w9WgXcQ".to_string()));
    assert_eq!(id_of("youtu.be/dQw4w9WgXcQ?t=1"), Some("dQw4w9WgXcQ".to_string()));
}

#[test]
fn short_identifier_in_address_fails() {
    assert_eq!(id_of("https://youtu.be/dQw4w9WgXc"), None);
    assert_eq!(id_of("https://youtu.be/dQw4w9WgXc?t=1"), None);
    assert_eq!(id_of("https://www.youtube.com/watch?v=short"), None);
    assert_eq!(id_of("https://www.youtube.com/embed/short"), None);
    assert_eq!(id_of("https://www.youtube.com/watch?v=dQw4 w9WgXcQ"), None);
}

#[test]
fn long_identifier_in_address_fails() {
    assert_eq!(
        YoutubeTranscript::retrieve_video_id("https://youtu.be/dQw4w9WgXcQXYZ"),
        Err(YoutubeTranscriptError::InvalidVideoId)
    );
    assert_eq!(id_of("https://youtu.be/dQw4w9WgXcQ1"), None);
    assert_eq!(id_of("https://youtu.be/dQw4w9WgXcQ12?t=1"), None);
    assert_eq!(id_of("https://www.youtube.com/watch?v=dQw4w9WgXcQextra"), None);
    assert_eq!(id_of("https://www.youtube.com/watch?v=dQw4w9WgXcQextra&t=1"), None);
    assert_eq!(id_of("https://www.youtube.com/embed/dQw4w9WgXcQextra"), None);
    assert_eq!(id_of("https://www.youtube.com/v/dQw4w9WgXcQextra"), None);
    assert_eq!(id_of("https://www.youtube.com/user/videos/dQw4w9WgXcQextra"), None);
}

#[test]
fn identifier_ends_at_the_end_or_before_a_character_that_is_none() {
    for end in ["", "\"", "&", "?", "/", " ", "\n", "\u{3000}", "&t=1", "/more"] {
        let input = format!("https://youtu.be/dQw4w9WgXcQ{}", end);
        assert_eq!(id_of(&input), Some("dQw4w9WgXcQ".to_string()), "input {:?}", input);
    }
    for end in ["x", "=", "-", "_", ".", "é", "#", "<"] {
        let input = format!("https://youtu.be/dQw4w9WgXcQ{}", end);
        assert_eq!(id_of(&input), None, "input {:?}", input);
    }
}

#[test]
fn a_later_identifier_is_found_after_a_row_that_is_too_long() {
    assert_eq!(
        id_of("youtu.be/AAAAAAAAAAAA youtu.be/BBBBBBBBBBB"),
        Some("BBBBBBBBBBB".to_string())
    );
    assert_eq!(
        id_of("youtube.com/watch?v=AAAAAAAAAAAA&v=BBBBBBBBBBB"),
        Some("BBBBBBBBBBB".to_string())
    );
    assert_eq!(
        id_of("youtube.com/watch?v=AAAAAAAAAAA&v=BBBBBBBBBBBB"),
        Some("AAAAAAAAAAA".to_string())
    );
    assert_eq!(
        id_of("youtube.com/a/b/AAAAAAAAAAA/BBBBBBBBBBBB"),
        Some("AAAAAAAAAAA".to_string())
    );
}

#[test]
fn leftmost_address_wins() {
    assert_eq!(
        id_of("youtu.be/AAAAAAAAAAA youtu.be/BBBBBBBBBBB"),
        Some("AAAAAAAAAAA".to_string())
    );
    assert_eq!(
        id_of("youtu.be/short youtube.com/v/BBBBBBBBBBB"),
        Some("BBBBBBBBBBB".to_string())
    );
}

#[test]
fn last_nested_path_and_last_parameter_win() {
    assert_eq!(
        id_of("youtube.com/a/b/AAAAAAAAAAA/BBBBBBBBBBB"),
        Some("BBBBBBBBBBB".to_string())
    );
    assert_eq!(
        id_of("youtube.com/watch?v=AAAAAAAAAAA&v=BBBBBBBBBBB"),
        Some("BBBBBBBBBBB".to_string())
    );
    // A nested path is read before a player path and before a parameter.
    assert_eq!(
        id_of("youtube.com/v/AAAAAAAAAAA/x/BBBBBBBBBBB"),
        Some("BBBBBBBBBBB".to_string())
    );
    assert_eq!(
        id_of("youtube.com/watch?v=AAAAAAAAAAA&x=a/b/BBBBBBBBBBB"),
        Some("BBBBBBBBBBB".to_string())
    );
}

#[test]
fn line_ends_stop_a_path_and_a_parameter() {
    assert_eq!(id_of("youtube.com/a/b\n/BBBBBBBBBBB"), None);
    assert_eq!(id_of("youtube.com/a\n/b/BBBBBBBBBBB"), Some("BBBBBBBBBBB".to_string()));
    assert_eq!(id_of("youtube.com/watch\n?v=BBBBBBBBBBB"), None);
}

#[test]
fn white_space_of_unicode_ends_an_identifier() {
    for space in ['\u{85}', '\u{a0}', '\u{1680}', '\u{2003}', '\u{2028}', '\u{202f}', '\u{205f}', '\u{3000}'] {
        let input = format!("youtu.be/dQw4w{}WgXcQxx", space);
        assert_eq!(id_of(&input), None);
    }
    assert_eq!(id_of("youtu.be/dQw4w\u{200b}WgXcQ"), Some("dQw4w\u{200b}WgXcQ".to_string()));
}

#[test]
fn agrees_with_the_pattern_on_chosen_inputs() {
    let pattern = Regex::new(RE_YOUTUBE).unwrap();
    let inputs = [
        "",
        "youtube.com/",
        "youtu.be/",
        "youtube.com//AAAAAAAAAAA",
        "youtube.com/a//AAAAAAAAAAA",
        "youtube.com/a/b/AAAAAAAAAAA",
        "youtube.com/a/b/AAAAAAAAAA",
        "youtube.com/embed/AAAAAAAAAAA/BBBBBBBBBBB",
        "youtube.com/e/AAAAAAAAAAA",
        "youtube.com/embedAAAAAAAAAAA",
        "youtube.com/emb/AAAAAAAAAAA",
        "youtube.com/?v=AAAAAAAAAAA",
        "youtube.com/&v=AAAAAAAAAAA",
        "youtube.com/x?v=AAAAAAAAAA&v=BBBBBBBBBBB",
        "youtube.com/x?v=AAAAAAAAAAA&v=BBBBBBBBBB",
        "youtube.com/x?v=AAAAAAAAAAA\n&v=BBBBBBBBBBB",
        "youtube.com/x\n/y/AAAAAAAAAAA",
        "youtube.com/x/\ny/AAAAAAAAAAA",
        "youtube.com/x/y\n/AAAAAAAAAAA",
        "youtube.com/x/y/AAAAAAAAAAA\n/BBBBBBBBBBB",
        "youtube.com/youtu.be/AAAAAAAAAAA",
        "youtu.be/youtube.com/v/AAAAAAAAAAA",
        "youtu.be/youtu.be/AAAAAAAAAAA",
        "xyoutu.be/AAAAAAAAAAAyoutube.com/v/BBBBBBBBBBB",
        "YOUTUBE.COM/watch?v=AAAAAAAAAAA",
        "youtube_com/watch?v=AAAAAAAAAAA",
        "https://m.youtube.com/watch?v=AAAAAAAAAAA#t=1",
        "https://www.youtube.com/watch?v=ééééééééééé",
        "https://www.youtube.com/watch?v=ééééé\u{3000}ééééé",
        "https://www.youtube.com/shorts/AAAAAAAAAAA",
        "https://www.youtube.com/live/x/AAAAAAAAAAA?si=1",
        "youtube.com/v/?v=AAAAAAAAAAA",
        "youtube.com/e//v/AAAAAAAAAAA",
        "youtube.com/a/bv=/AAAAAAAAAAA&v=BBBBBBBBBBB",
        "youtu.be/AAAAAAAAAAAA",
        "youtu.be/AAAAAAAAAAAA/BBBBBBBBBBB",
        "youtube.com/v/AAAAAAAAAAAA",
        "youtube.com/v/AAAAAAAAAAAA?v=BBBBBBBBBBB",
        "youtube.com/x?v=AAAAAAAAAAAA",
        "youtube.com/x?v=AAAAAAAAAAAA&v=BBBBBBBBBBB",
        "youtube.com/a/b/AAAAAAAAAAAA",
        "youtube.com/a/b/AAAAAAAAAAA\n",
        "youtube.com/a/b/AAAAAAAAAAA=",
        "youtube.com/v/AAAAAAAAAAA/b/BBBBBBBBBBBB",
    ];
    for input in inputs {
        assert_eq!(id_of(input), by_pattern(&pattern, input), "input {:?}", input);
    }
}

#[test]
fn agrees_with_the_pattern_on_generated_inputs() {
    let pattern = Regex::new(RE_YOUTUBE).unwrap();
    let pieces = [
        "youtube.com/",
        "youtu.be/",
        "youtu",
        "v/",
        "e/",
        "embed/",
        "?v=",
        "&v=",
        "v=",
        "/",
        "?",
        "&",
        "\"",
        "\n",
        " ",
        "\u{a0}",
        "é",
        "x",
        "AAAAAAAAAAA",
        "BBBBBBBBBB",
        "CCCCC",
        "watch",
        "https://www.",
    ];
    let mut numbers = Numbers(2024);
    for _ in 0..30000 {
        let count = 1 + numbers.next(7);
        let mut input = String::new();
        for _ in 0..count {
            input.push_str(pieces[numbers.next(pieces.len())]);
        }
        assert_eq!(id_of(&input), by_pattern(&pattern, &input), "input {:?}", input);
    }
}

#[test]
fn agrees_with_the_pattern_on_every_short_path() {
    let pattern = Regex::new(RE_YOUTUBE).unwrap();
    let pieces = ["/", "v", "e", "mbed", "=", "?", "&", "\n", "AAAAAAAAAAA", "BBBBB", "x", " "];
    let mut input = String::from("youtube.com/");
    compare_all(&pattern, &pieces, 4, &mut input);
}

#[test]
fn agrees_with_the_pattern_on_every_short_row_of_hosts() {
    let pattern = Regex::new(RE_YOUTUBE).unwrap();
    let pieces =
        ["youtube.com/", "youtu.be/", "/", "v/", "?v=", "\n", "AAAAAAAAAAA", "BBBBBBBBBB", "y", "\""];
    let mut input = String::new();
    compare_all(&pattern, &pieces, 4, &mut input);
}

#[test]
fn white_space_is_that_of_unicode() {
    for c in '\0'..=char::MAX {
        assert_eq!(space(c), c.is_whitespace(), "character {:?}", c);
    }
    assert!(space(' '));
    assert!(space('\n'));
    assert!(space('\u{3000}'));
    assert!(!space('a'));
    assert!(!space('\u{200b}'));
}

#[test]
fn identifier_characters_are_those_of_the_pattern() {
    let class = Regex::new("^[^\"&?/\\s]$").unwrap();
    let mut one = String::new();
    for c in '\0'..=char::MAX {
        one.clear();
        one.push(c);
        assert_eq!(id_char(c), class.is_match(&one), "character {:?}", c);
    }
    for c in ['"', '&', '?', '/', ' ', '\t', '\n'] {
        assert!(!id_char(c));
    }
    for c in ['a', 'Z', '0', '-', '_', '=', '.', 'é', '<'] {
        assert!(id_char(c));
    }
}

#[test]
fn identifier_needs_eleven_characters_in_the_text() {
    let text: Vec<char> = "ab/dQw4w9WgXcQ".chars().collect();
    assert!(has_id_at(&text, 3));
    assert!(!has_id_at(&text, 4));
    assert!(!has_id_at(&text, 0));
    assert!(!has_id_at(&text, 14));
    assert!(!has_id_at(&text, 100));
    assert!(!has_id_at(&[], 0));
    let ended: Vec<char> = "ab/dQw4w9WgXcQ&x".chars().collect();
    assert!(has_id_at(&ended, 3));
    let longer: Vec<char> = "ab/dQw4w9WgXcQx".chars().collect();
    assert!(!has_id_at(&longer, 3));
    assert!(has_id_at(&longer, 4));
}
