use vstd::prelude::*;

verus! {

/// Why a transcript could not be read or written.
#[derive(Debug, Clone, Copy, PartialEq, Eq, Structural)]
pub enum TranscriptError {
    /// The bytes are not the JSON text of a list of strings.
    Malformed,
    /// The lines could not be written as JSON text.
    Unwritable,
}

/// The lines of a transcript as texts.
pub open spec fn texts(lines: Seq<String>) -> Seq<Seq<char>> {
    Seq::new(lines.len(), |i: int| lines[i]@)
}

/// All lines of a transcript, one after the other.
pub open spec fn joined(lines: Seq<Seq<char>>) -> Seq<char>
    decreases lines.len(),
{
    if lines.len() == 0 {
        Seq::empty()
    } else {
        joined(lines.drop_last()) + lines.last()
    }
}

/// The indented JSON text that `serde_json` writes for a list of strings,
/// or `None` where it reports an error.
pub uninterp spec fn pretty_json(lines: Seq<Seq<char>>) -> Option<Seq<char>>;

/// The list of strings that `serde_json` reads from the bytes of a JSON
/// text, or `None` where it reports an error.
pub uninterp spec fn json_lines(bytes: Seq<u8>) -> Option<Seq<Seq<char>>>;

/// `serde_json::to_string_pretty` on a list of strings: the result is the
/// text that `pretty_json` names, which depends on the strings alone.
#[verifier::external_body]
fn write_pretty(lines: &Vec<String>) -> (r: Option<String>)
    ensures
        r is Some ==> pretty_json(texts(lines@)) == Some(r->Some_0@),
        r is None ==> pretty_json(texts(lines@)) is None,
{
    serde_json::to_string_pretty(lines).ok()
}

/// `serde_json::from_slice` for a list of strings: the result is the list
/// that `json_lines` names, which depends on the bytes alone.
#[verifier::external_body]
fn read_lines(bytes: &[u8]) -> (r: Option<Vec<String>>)
    ensures
        r is Some ==> json_lines(bytes@) == Some(texts(r->Some_0@)),
        r is None ==> json_lines(bytes@) is None,
{
    serde_json::from_slice::<Vec<String>>(bytes).ok()
}

/// The text under which a transcript is stored: indented JSON.
pub fn encode(history: &Vec<String>) -> (r: Result<String, TranscriptError>)
    ensures
        match pretty_json(texts(history@)) {
            Some(text) => r is Ok && r->Ok_0@ == text,
            None => r == Err::<String, TranscriptError>(TranscriptError::Unwritable),
        },
{
    match write_pretty(history) {
        Some(text) => Ok(text),
        None => Err(TranscriptError::Unwritable),
    }
}

/// The transcript that a stored text holds.
pub fn decode(bytes: &[u8]) -> (r: Result<Vec<String>, TranscriptError>)
    ensures
        match json_lines(bytes@) {
            Some(lines) => r is Ok && texts(r->Ok_0@) == lines,
            None => r == Err::<Vec<String>, TranscriptError>(TranscriptError::Malformed),
        },
{
    match read_lines(bytes) {
        Some(lines) => Ok(lines),
        None => Err(TranscriptError::Malformed),
    }
}

} // verus!
