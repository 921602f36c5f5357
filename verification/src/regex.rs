//! The patterns that the library reads by, in the notation of regular
//! expressions, and the name it gives itself when it asks for a page.

use vstd::prelude::*;

verus! {

/// Where a video identifier stands in an address: after one of the known
/// openings, as eleven identifier characters that end where the text ends
/// or before a character that no identifier holds. The first group is the
/// identifier. `video_id` states the reading of this pattern and computes
/// it.
pub const RE_YOUTUBE: &'static str =
    r#"(?:youtube\.com\/(?:[^\/]+\/.+\/|(?:v|e(?:mbed)?)\/|.*[?&]v=)|youtu\.be\/)([^"&?\/\s]{11})(?:["&?\/\s]|$)"#;

/// The `User-Agent` header of every request.
pub const USER_AGENT: &'static str =
    "Mozilla/5.0 (Macintosh; Intel Mac OS X 10_15_4) AppleWebKit/537.36 (KHTML, like Gecko) Chrome/85.0.4183.83 Safari/537.36,gzip(gfe)";

/// One timed segment of a transcript document. `transcript` states the
/// reading of this pattern and computes it.
pub const RE_XML_TRANSCRIPT: &'static str = r#"<text start="([^"]*)" dur="([^"]*)">([^<]*)<\/text>"#;

} // verus!
