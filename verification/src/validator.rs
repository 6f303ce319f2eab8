//! Message validation: a line is eligible for forwarding only if its text
//! parses as a structured JSON payload. The original text is kept verbatim.
use vstd::prelude::*;
use crate::framer::Line;

verus! {

/// Whether a piece of text parses as a JSON value.
pub uninterp spec fn json_parses(s: Seq<char>) -> bool;

/// Relies on `serde_json::from_str::<serde_json::Value>`: whether a string
/// parses as JSON depends on its characters alone.
#[verifier::external_body]
fn parse_ok(text: &Vec<char>) -> (r: bool)
    ensures
        r == json_parses(text@),
{
    let s: String = text.iter().collect();
    serde_json::from_str::<serde_json::Value>(&s).is_ok()
}

/// A line whose text was checked to parse as a structured payload; the text
/// is the original one, kept verbatim so forwarding stays byte-identical.
pub struct ValidatedLine {
    text: Vec<char>,
}

impl View for ValidatedLine {
    type V = Seq<char>;

    closed spec fn view(&self) -> Seq<char> {
        self.text@
    }
}

impl ValidatedLine {
    pub fn as_chars(&self) -> (r: &Vec<char>)
        ensures
            r@ == self@,
    {
        &self.text
    }
}

/// The rejection a line that is not well-formed JSON gets; the offending
/// text is handed back so the caller can log and drop it.
pub struct Invalid {
    text: Vec<char>,
}

impl View for Invalid {
    type V = Seq<char>;

    closed spec fn view(&self) -> Seq<char> {
        self.text@
    }
}

impl Invalid {
    pub fn as_chars(&self) -> (r: &Vec<char>)
        ensures
            r@ == self@,
    {
        &self.text
    }
}

/// Check whether `line` is a well-formed structured payload.
///
/// Success wraps the original text verbatim; failure hands the same text
/// back as `Invalid`. The line itself decides: exactly the lines whose text
/// parses as JSON are accepted.
pub fn validate(line: Line) -> (r: Result<ValidatedLine, Invalid>)
    ensures
        r is Ok <==> json_parses(line@),
        r matches Ok(v) ==> v@ == line@,
        r matches Err(e) ==> e@ == line@,
{
    let text = line.into_chars();
    if parse_ok(&text) {
        Ok(ValidatedLine { text })
    } else {
        Err(Invalid { text })
    }
}

} // verus!
