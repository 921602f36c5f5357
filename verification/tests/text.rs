use ytranscript::text::{
    chars_of, find_first, includes, part_after, part_after_prefix, part_before, parts_around,
    starts_at, string_of, strip,
};

fn chars(s: &str) -> Vec<char> {
    s.chars().collect()
}

#[test]
fn chars_and_strings() {
    assert_eq!(chars_of(""), Vec::<char>::new());
    assert_eq!(chars_of("aé\u{3000}z"), vec!['a', 'é', '\u{3000}', 'z']);
    assert_eq!(string_of(&['a', 'é', '\u{3000}', 'z']), "aé\u{3000}z");
    assert_eq!(string_of(&[]), "");
}

#[test]
fn starts_at_looks_at_one_place() {
    let text = chars("abcabc");
    assert!(starts_at(&text, &chars("abc"), 0));
    assert!(starts_at(&text, &chars("abc"), 3));
    assert!(!starts_at(&text, &chars("abc"), 1));
    assert!(!starts_at(&text, &chars("abc"), 4));
    assert!(!starts_at(&text, &chars("abc"), 7));
    assert!(starts_at(&text, &chars(""), 6));
    assert!(!starts_at(&text, &chars(""), 7));
    assert!(!starts_at(&text, &chars("abcabca"), 0));
}

#[test]
fn find_first_gives_the_first_place() {
    let text = chars("xxabxabx");
    assert_eq!(find_first(&text, &chars("ab")), Some(2));
    assert_eq!(find_first(&text, &chars("abx")), Some(2));
    assert_eq!(find_first(&text, &chars("xabx")), Some(1));
    assert_eq!(find_first(&text, &chars("b")), Some(3));
    assert_eq!(find_first(&text, &chars("ba")), None);
    assert_eq!(find_first(&text, &chars("")), Some(0));
    assert_eq!(find_first(&[], &chars("")), Some(0));
    assert_eq!(find_first(&[], &chars("a")), None);
    assert_eq!(find_first(&text, &chars("xxabxabxx")), None);
    assert_eq!(find_first(&chars("aaab"), &chars("aab")), Some(1));
}

#[test]
fn find_first_agrees_with_the_standard_library() {
    let pieces = ["a", "b", "ab", "é", "aab"];
    let mut texts = vec![String::new()];
    for _ in 0..5 {
        let mut longer = Vec::new();
        for text in &texts {
            for piece in pieces {
                longer.push(format!("{}{}", text, piece));
            }
        }
        texts.extend(longer);
        texts.sort();
        texts.dedup();
    }
    for text in &texts {
        for pat in ["", "a", "ab", "aab", "ba", "é", "éa"] {
            let expected = text.find(pat).map(|at| text[..at].chars().count());
            assert_eq!(find_first(&chars(text), &chars(pat)), expected, "{:?} in {:?}", pat, text);
            assert_eq!(includes(&chars(text), &chars(pat)), text.contains(pat));
        }
    }
}

#[test]
fn parts_before_and_after() {
    let text = chars("k=v=w");
    assert_eq!(part_before(&text, &chars("=")), &chars("k")[..]);
    assert_eq!(part_after(&text, &chars("=")), Some(&chars("v=w")[..]));
    assert_eq!(part_before(&text, &chars("#")), &text[..]);
    assert_eq!(part_after(&text, &chars("#")), None);
    assert_eq!(parts_around(&text, &chars("=")), Some((&chars("k")[..], &chars("v=w")[..])));
    assert_eq!(parts_around(&text, &chars("=w")), Some((&chars("k=v")[..], &chars("")[..])));
    assert_eq!(parts_around(&text, &chars("#")), None);
    assert_eq!(part_after_prefix(&text, &chars("k=")), Some(&chars("v=w")[..]));
    assert_eq!(part_after_prefix(&text, &chars("=")), None);
    assert_eq!(part_after_prefix(&text, &chars("k=v=w")), Some(&chars("")[..]));
    assert_eq!(part_after_prefix(&text, &chars("k=v=w!")), None);
}

#[test]
fn strip_takes_out_every_occurrence() {
    assert_eq!(strip(&chars("\na\n\nb\n"), '\n'), chars("ab"));
    assert_eq!(strip(&chars("ab"), '\n'), chars("ab"));
    assert_eq!(strip(&chars("\n\n"), '\n'), chars(""));
    assert_eq!(strip(&[], '\n'), chars(""));
}
