//! Reading the timed segments out of a transcript document.
//!
//! A segment is written
//! `<text start="START" dur="DUR">TEXT</text>`, where `START` and `DUR` hold
//! no double quote and `TEXT` holds no `<`. The document is read from left
//! to right; what is no segment is passed over, and a segment is taken as
//! it stands, markup and character references included.

use crate::text::{
    chars_of, lemma_find_first, lemma_split_at_char, lemma_split_once_char, part_after_prefix,
    parts_around, split_once, string_of, strip_prefix,
};
use crate::types::{EntryView, TranscriptResponse};
use vstd::prelude::*;
use vstd::slice::slice_subrange;
use vstd::string::StringExecFns;

verus! {

/// A segment as it is written.
pub struct Element {
    pub start: Seq<char>,
    pub dur: Seq<char>,
    pub text: Seq<char>,
}

/// The segment that `t` begins with, and what follows it.
pub open spec fn leading_element(t: Seq<char>) -> Option<(Element, Seq<char>)> {
    match strip_prefix(t, "<text start=\""@) {
        None => None,
        Some(r1) => match split_once(r1, "\""@) {
            None => None,
            Some((start, r2)) => match strip_prefix(r2, " dur=\""@) {
                None => None,
                Some(r3) => match split_once(r3, "\""@) {
                    None => None,
                    Some((dur, r4)) => match strip_prefix(r4, ">"@) {
                        None => None,
                        Some(r5) => match split_once(r5, "<"@) {
                            None => None,
                            Some((text, r6)) => match strip_prefix(r6, "/text>"@) {
                                None => None,
                                Some(rest) => Some((Element { start, dur, text }, rest)),
                            },
                        },
                    },
                },
            },
        },
    }
}

/// The segments of `t`, in the order in which they stand: where `t` begins
/// with a segment, that one and those of what follows it; else those of
/// `t` without its first character.
pub open spec fn elements(t: Seq<char>) -> Seq<Element>
    decreases t.len(),
    via elements_decreases
{
    if t.len() == 0 {
        Seq::empty()
    } else {
        match leading_element(t) {
            Some((e, rest)) => seq![e] + elements(rest),
            None => elements(t.drop_first()),
        }
    }
}

/// What follows a leading segment is shorter than the text.
pub proof fn lemma_leading_shorter(t: Seq<char>)
    ensures
        match leading_element(t) {
            Some((e, rest)) => rest.len() < t.len(),
            None => true,
        },
{
    reveal_strlit("<text start=\"");
    if leading_element(t) is Some {
        let r1 = strip_prefix(t, "<text start=\""@)->0;
        let (start, r2) = split_once(r1, "\""@)->0;
        let r3 = strip_prefix(r2, " dur=\""@)->0;
        let (dur, r4) = split_once(r3, "\""@)->0;
        let r5 = strip_prefix(r4, ">"@)->0;
        let (text, r6) = split_once(r5, "<"@)->0;
        let rest = strip_prefix(r6, "/text>"@)->0;
        lemma_find_first(r1, "\""@);
        lemma_find_first(r3, "\""@);
        lemma_find_first(r5, "<"@);
        assert(r1.len() < t.len());
        assert(r2.len() <= r1.len() && r4.len() <= r3.len() && r6.len() <= r5.len());
        assert(rest.len() <= r6.len());
    }
}

#[via_fn]
proof fn elements_decreases(t: Seq<char>) {
    lemma_leading_shorter(t);
}

/// A segment as it is written: its first two parts hold no double quote
/// and its text holds no `<`.
pub open spec fn well_formed(e: Element) -> bool {
    &&& !e.start.contains('"')
    &&& !e.dur.contains('"')
    &&& !e.text.contains('<')
}

/// The characters that write the segment `e`.
pub open spec fn written(e: Element) -> Seq<char> {
    "<text start=\""@ + e.start + "\" dur=\""@ + e.dur + "\">"@ + e.text + "</text>"@
}

/// What begins with a segment begins with what writes it, and the segment
/// is well formed.
pub proof fn lemma_leading_is_written(t: Seq<char>)
    ensures
        match leading_element(t) {
            Some((e, rest)) => t == written(e) + rest && well_formed(e),
            None => true,
        },
{
    reveal_strlit("<text start=\"");
    reveal_strlit("\" dur=\"");
    reveal_strlit(" dur=\"");
    reveal_strlit("\">");
    reveal_strlit(">");
    reveal_strlit("\"");
    reveal_strlit("<");
    reveal_strlit("</text>");
    reveal_strlit("/text>");
    if leading_element(t) is Some {
        let r1 = strip_prefix(t, "<text start=\""@)->0;
        let (start, r2) = split_once(r1, "\""@)->0;
        let r3 = strip_prefix(r2, " dur=\""@)->0;
        let (dur, r4) = split_once(r3, "\""@)->0;
        let r5 = strip_prefix(r4, ">"@)->0;
        let (text, r6) = split_once(r5, "<"@)->0;
        let rest = strip_prefix(r6, "/text>"@)->0;
        assert("\""@ =~= seq!['"']);
        assert("<"@ =~= seq!['<']);
        lemma_split_once_char(r1, '"');
        lemma_split_once_char(r3, '"');
        lemma_split_once_char(r5, '<');
        assert(t =~= "<text start=\""@ + r1);
        assert(r2 =~= " dur=\""@ + r3);
        assert(r4 =~= ">"@ + r5);
        assert("</text>"@ =~= seq!['<'] + "/text>"@);
        let e = Element { start, dur, text };
        assert(t =~= written(e) + rest);
    }
}

/// What is written as a well-formed segment is read as that segment,
/// whatever follows it.
pub proof fn lemma_written_is_leading(e: Element, rest: Seq<char>)
    requires
        well_formed(e),
    ensures
        leading_element(written(e) + rest) == Some((e, rest)),
{
    reveal_strlit("<text start=\"");
    reveal_strlit("\" dur=\"");
    reveal_strlit(" dur=\"");
    reveal_strlit("\">");
    reveal_strlit(">");
    reveal_strlit("\"");
    reveal_strlit("<");
    reveal_strlit("</text>");
    reveal_strlit("/text>");
    let t = written(e) + rest;
    assert("\""@ =~= seq!['"']);
    assert("<"@ =~= seq!['<']);
    let r6 = "/text>"@ + rest;
    let r5 = e.text + seq!['<'] + r6;
    let r4 = ">"@ + r5;
    let r3 = e.dur + seq!['"'] + r4;
    let r2 = " dur=\""@ + r3;
    let r1 = e.start + seq!['"'] + r2;
    assert(t.subrange(0, 13) =~= "<text start=\""@);
    assert(t.skip(13) =~= r1);
    lemma_split_at_char(e.start, '"', r2);
    assert(r2.subrange(0, 6) =~= " dur=\""@);
    assert(r2.skip(6) =~= r3);
    lemma_split_at_char(e.dur, '"', r4);
    assert(r4.subrange(0, 1) =~= ">"@);
    assert(r4.skip(1) =~= r5);
    lemma_split_at_char(e.text, '<', r6);
    assert(r6.subrange(0, 6) =~= "/text>"@);
}

/// A document that begins with a well-formed segment holds that segment
/// first and then the segments of the rest: segments written one after
/// the other are read in that order.
pub proof fn lemma_elements_of_written(e: Element, rest: Seq<char>)
    requires
        well_formed(e),
    ensures
        elements(written(e) + rest) == seq![e] + elements(rest),
{
    reveal_strlit("<text start=\"");
    lemma_written_is_leading(e, rest);
}

/// The entry that a segment gives for a transcript in the language `lang`.
pub open spec fn entry_of(e: Element, lang: Seq<char>) -> EntryView {
    EntryView { text: e.text, duration: e.dur, offset: e.start, lang }
}

/// The entries of a transcript document in the language `lang`, in document
/// order.
pub open spec fn entries_of(document: Seq<char>, lang: Seq<char>) -> Seq<EntryView> {
    elements(document).map_values(|e: Element| entry_of(e, lang))
}

/// The marks between the parts of a segment, as characters.
struct Marks {
    opening: Vec<char>,
    quote: Vec<char>,
    dur: Vec<char>,
    close_tag: Vec<char>,
    open_angle: Vec<char>,
    closing: Vec<char>,
}

impl Marks {
    spec fn wf(&self) -> bool {
        &&& self.opening@ == "<text start=\""@
        &&& self.quote@ == "\""@
        &&& self.dur@ == " dur=\""@
        &&& self.close_tag@ == ">"@
        &&& self.open_angle@ == "<"@
        &&& self.closing@ == "/text>"@
    }

    fn new() -> (r: Marks)
        ensures
            r.wf(),
    {
        Marks {
            opening: chars_of("<text start=\""),
            quote: chars_of("\""),
            dur: chars_of(" dur=\""),
            close_tag: chars_of(">"),
            open_angle: chars_of("<"),
            closing: chars_of("/text>"),
        }
    }
}

/// The parts of a segment, and what follows the segment.
struct Leading<'a> {
    start: &'a [char],
    dur: &'a [char],
    text: &'a [char],
    rest: &'a [char],
}

/// The segment that `t` begins with.
fn leading<'a>(t: &'a [char], marks: &Marks) -> (r: Option<Leading<'a>>)
    requires
        marks.wf(),
    ensures
        match r {
            Some(found) => leading_element(t@) == Some(
                (
                    Element { start: found.start@, dur: found.dur@, text: found.text@ },
                    found.rest@,
                ),
            ),
            None => leading_element(t@) is None,
        },
{
    let r1 = match part_after_prefix(t, marks.opening.as_slice()) {
        Some(r1) => r1,
        None => {
            return None;
        },
    };
    let (start, r2) = match parts_around(r1, marks.quote.as_slice()) {
        Some(parts) => parts,
        None => {
            return None;
        },
    };
    let r3 = match part_after_prefix(r2, marks.dur.as_slice()) {
        Some(r3) => r3,
        None => {
            return None;
        },
    };
    let (dur, r4) = match parts_around(r3, marks.quote.as_slice()) {
        Some(parts) => parts,
        None => {
            return None;
        },
    };
    let r5 = match part_after_prefix(r4, marks.close_tag.as_slice()) {
        Some(r5) => r5,
        None => {
            return None;
        },
    };
    let (text, r6) = match parts_around(r5, marks.open_angle.as_slice()) {
        Some(parts) => parts,
        None => {
            return None;
        },
    };
    let rest = match part_after_prefix(r6, marks.closing.as_slice()) {
        Some(rest) => rest,
        None => {
            return None;
        },
    };
    Some(Leading { start, dur, text, rest })
}

/// Whether the transcript `document` holds a segment.
pub fn has_elements(document: &str) -> (r: bool)
    ensures
        r == (elements(document@).len() > 0),
{
    let marks = Marks::new();
    let all = chars_of(document);
    let mut rest: &[char] = all.as_slice();
    while rest.len() > 0
        invariant
            marks.wf(),
            elements(document@) == elements(rest@),
        decreases rest.len(),
    {
        match leading(rest, &marks) {
            Some(found) => {
                return true;
            },
            None => {
                rest = slice_subrange(rest, 1, rest.len());
            },
        }
    }
    false
}

/// The entries of the transcript `document`, each marked with the language
/// `lang`, in document order.
pub fn entries(document: &str, lang: &str) -> (r: Vec<TranscriptResponse>)
    ensures
        r.deep_view() == entries_of(document@, lang@),
{
    let marks = Marks::new();
    let all = chars_of(document);
    let mut rest: &[char] = all.as_slice();
    let mut out: Vec<TranscriptResponse> = Vec::new();
    let ghost mut seen: Seq<Element> = Seq::empty();
    while rest.len() > 0
        invariant
            marks.wf(),
            elements(document@) == seen + elements(rest@),
            out.deep_view() == seen.map_values(|e: Element| entry_of(e, lang@)),
        decreases rest.len(),
    {
        match leading(rest, &marks) {
            Some(found) => {
                let ghost e = Element { start: found.start@, dur: found.dur@, text: found.text@ };
                let ghost before = out.deep_view();
                proof {
                    lemma_leading_shorter(rest@);
                    assert(seen + (seq![e] + elements(found.rest@)) =~= seen.push(e) + elements(
                        found.rest@,
                    ));
                }
                out.push(
                    TranscriptResponse {
                        text: string_of(found.text),
                        duration: string_of(found.dur),
                        offset: string_of(found.start),
                        lang: String::from_str(lang),
                    },
                );
                proof {
                    seen = seen.push(e);
                    assert(out.deep_view() =~= before.push(entry_of(e, lang@)));
                }
                rest = found.rest;
            },
            None => {
                rest = slice_subrange(rest, 1, rest.len());
            },
        }
    }
    out
}

} // verus!
