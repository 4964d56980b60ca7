use vstd::prelude::*;

verus! {

/// Errors raised while reading a WAV file and its chunks.
#[derive(Clone, Debug, PartialEq, Eq)]
pub enum AudioParserError {
    /// The input could not be read, or a byte range lies outside it.
    InputAudioFileError(String),
    /// A header or a chunk of the file holds values that do not agree.
    InvalidFileHeaderError(String),
    /// A number was to be decoded from a slice of the wrong length.
    InvalidByteCount { expected: usize, actual: usize },
}

/// Errors raised while drawing a waveform.
#[derive(Clone, Debug, PartialEq, Eq)]
pub enum RenderingError {
    /// The chart could not be set up.
    ChartSetupError(String),
    /// The chart could not be drawn.
    ChartDrawError(String),
}

/// How a parse fails: a byte range that lies outside the input, a header error with its
/// message, or a number field of the wrong width.
pub ghost enum Failure {
    Range,
    Header(Seq<char>),
    ByteCount(nat, nat),
}

/// `res` is the error that `f` describes.
pub open spec fn fails_with<T>(res: Result<T, AudioParserError>, f: Failure) -> bool {
    match f {
        Failure::Range => res matches Err(e) && is_range_error(e),
        Failure::Header(text) => res matches Err(e) && is_header_error(e, text),
        Failure::ByteCount(expected, actual) => res matches Err(
            AudioParserError::InvalidByteCount { expected: x, actual: y },
        ) && x == expected && y == actual,
    }
}

/// The error for a byte range that lies outside the data it indexes.
pub open spec fn is_range_error(e: AudioParserError) -> bool {
    e matches AudioParserError::InputAudioFileError(m) && m@ == "invalid byte range"@
}

/// Builds the error for a byte range that lies outside the data it indexes.
pub fn range_error() -> (e: AudioParserError)
    ensures
        is_range_error(e),
{
    AudioParserError::InputAudioFileError(String::from_str("invalid byte range"))
}

/// An error about a header or chunk whose message is `text`.
pub open spec fn is_header_error(e: AudioParserError, text: Seq<char>) -> bool {
    e matches AudioParserError::InvalidFileHeaderError(m) && m@ == text
}

/// The character of the decimal digit `d`.
pub open spec fn digit_char(d: nat) -> char {
    (d + 48) as char
}

/// The decimal notation of `n`, without leading zeros.
pub open spec fn decimal(n: nat) -> Seq<char>
    decreases n,
{
    if n < 10 {
        seq![digit_char(n)]
    } else {
        decimal(n / 10).push(digit_char(n % 10))
    }
}

fn digit_str(d: u64) -> (s: &'static str)
    requires
        d < 10,
    ensures
        s@ == seq![digit_char(d as nat)],
{
    if d == 0 {
        proof { reveal_strlit("0"); }
        "0"
    } else if d == 1 {
        proof { reveal_strlit("1"); }
        "1"
    } else if d == 2 {
        proof { reveal_strlit("2"); }
        "2"
    } else if d == 3 {
        proof { reveal_strlit("3"); }
        "3"
    } else if d == 4 {
        proof { reveal_strlit("4"); }
        "4"
    } else if d == 5 {
        proof { reveal_strlit("5"); }
        "5"
    } else if d == 6 {
        proof { reveal_strlit("6"); }
        "6"
    } else if d == 7 {
        proof { reveal_strlit("7"); }
        "7"
    } else if d == 8 {
        proof { reveal_strlit("8"); }
        "8"
    } else {
        proof { reveal_strlit("9"); }
        "9"
    }
}

/// Writes `n` in decimal notation.
pub fn decimal_string(n: u64) -> (s: String)
    ensures
        s@ == decimal(n as nat),
    decreases n,
{
    if n < 10 {
        let s = String::from_str(digit_str(n));
        proof {
            assert(s@ =~= decimal(n as nat));
        }
        s
    } else {
        let mut s = decimal_string(n / 10);
        s.append(digit_str(n % 10));
        proof {
            assert(s@ =~= decimal(n as nat));
        }
        s
    }
}

/// `prefix`, then `n` in decimal, then `suffix`.
pub open spec fn numbered_text(prefix: Seq<char>, n: nat, suffix: Seq<char>) -> Seq<char> {
    prefix + decimal(n) + suffix
}

/// The message for a value that does not agree with what the file states.
pub open spec fn mismatch_text(what: Seq<char>, got: nat, expected: nat) -> Seq<char> {
    "Mismatch of "@ + what + ": Got: "@ + decimal(got) + ", expected: "@ + decimal(expected)
}

/// A header error whose message is `prefix`, then `n` in decimal, then `suffix`.
pub fn numbered_error(prefix: &str, n: u64, suffix: &str) -> (e: AudioParserError)
    ensures
        is_header_error(e, numbered_text(prefix@, n as nat, suffix@)),
{
    let mut m = String::from_str(prefix);
    let number = decimal_string(n);
    m.append(number.as_str());
    m.append(suffix);
    AudioParserError::InvalidFileHeaderError(m)
}

/// A header error saying that `what` is `got` where `expected` was wanted.
pub fn mismatch_error(what: &str, got: u64, expected: u64) -> (e: AudioParserError)
    ensures
        is_header_error(e, mismatch_text(what@, got as nat, expected as nat)),
{
    let mut m = String::from_str("Mismatch of ");
    m.append(what);
    m.append(": Got: ");
    let got_text = decimal_string(got);
    m.append(got_text.as_str());
    m.append(", expected: ");
    let expected_text = decimal_string(expected);
    m.append(expected_text.as_str());
    AudioParserError::InvalidFileHeaderError(m)
}

/// A header error with the fixed message `text`.
pub fn header_error(text: &str) -> (e: AudioParserError)
    ensures
        is_header_error(e, text@),
{
    AudioParserError::InvalidFileHeaderError(String::from_str(text))
}

} // verus!
