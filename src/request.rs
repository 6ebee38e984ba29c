use crate::queue::Message;
use vstd::prelude::*;
use vstd::utf8::encode_utf8;

verus! {

/// Why the timeout of a pop request could not be read.
#[derive(PartialEq, Eq, Structural, Debug, Clone, Copy)]
pub enum TimeoutError {
    /// The text is not a duration.
    Invalid,
    /// The text holds an exponent of five digits or more, which would ask for
    /// an unbounded amount of work to scale.
    ExponentTooLong,
}

#[verifier::external_type_specification]
#[verifier::external_body]
pub struct ExDurationError(parse_duration::parse::Error);

/// The first value given for the `timeout` query parameter, if any.
pub open spec fn first_timeout(pairs: Seq<(String, String)>) -> Option<Seq<char>>
    decreases pairs.len(),
{
    if pairs.len() == 0 {
        None
    } else if pairs[0].0@ == "timeout"@ {
        Some(pairs[0].1@)
    } else {
        first_timeout(pairs.drop_first())
    }
}

/// `b` is an ASCII digit.
pub open spec fn is_digit_byte(b: u8) -> bool {
    48 <= b <= 57
}

/// At `i` the text starts an exponent of five digits or more: an `e` or `E`,
/// an optional sign, then five ASCII digits.
pub open spec fn long_exponent_at(b: Seq<u8>, i: int) -> bool {
    let j = if i + 1 < b.len() && (b[i + 1] == 43 || b[i + 1] == 45) {
        i + 2
    } else {
        i + 1
    };
    &&& (b[i] == 101 || b[i] == 69)
    &&& j + 5 <= b.len()
    &&& forall|k: int| j <= k < j + 5 ==> #[trigger] is_digit_byte(b[k])
}

/// No exponent of five digits or more stands in the UTF-8 bytes `b`.
pub open spec fn exponents_short(b: Seq<u8>) -> bool {
    forall|i: int| 0 <= i < b.len() ==> !#[trigger] long_exponent_at(b, i)
}

/// The duration that the text denotes, in nanoseconds, or `None` where it
/// denotes none.
pub uninterp spec fn duration_nanos(s: Seq<char>) -> Option<u128>;

/// A duration in nanoseconds, held at the largest `u64`.
pub open spec fn clamped(n: u128) -> u64 {
    if n <= u64::MAX {
        n as u64
    } else {
        u64::MAX
    }
}

/// What a pop request makes of the text of its timeout.
pub open spec fn timeout_outcome(text: Seq<char>) -> Result<u64, TimeoutError> {
    if !exponents_short(encode_utf8(text)) {
        Err(TimeoutError::ExponentTooLong)
    } else {
        match duration_nanos(text) {
            Some(n) => Ok(clamped(n)),
            None => Err(TimeoutError::Invalid),
        }
    }
}

/// Relies on parse_duration::parse to read a duration ("5s", "200ms", "1m")
/// from the text alone, `Ok` exactly when the text is one; the duration is
/// handed on in nanoseconds. The parser raises ten to the power of any
/// exponent in the text, so a long exponent is left out.
#[verifier::external_body]
fn parse_duration_text(s: &str) -> (r: Result<u128, parse_duration::parse::Error>)
    requires
        exponents_short(encode_utf8(s@)),
    ensures
        match r {
            Ok(n) => duration_nanos(s@) == Some(n),
            Err(_) => duration_nanos(s@) is None,
        },
{
    match parse_duration::parse(s) {
        Ok(d) => Ok(d.as_nanos()),
        Err(e) => Err(e),
    }
}

/// Whether no exponent of five digits or more stands in `s`.
pub fn has_short_exponents(s: &str) -> (r: bool)
    ensures
        r == exponents_short(encode_utf8(s@)),
{
    let b = s.as_bytes();
    let n = b.len();
    let mut i: usize = 0;
    while i < n
        invariant
            n == b@.len(),
            b@ == encode_utf8(s@),
            i <= n,
            forall|j: int| 0 <= j < i ==> !#[trigger] long_exponent_at(b@, j),
        decreases n - i,
    {
        if b[i] == 101 || b[i] == 69 {
            let mut j: usize = i + 1;
            if j < n && (b[j] == 43 || b[j] == 45) {
                j = j + 1;
            }
            if j <= n && n - j >= 5 {
                let d0 = 48 <= b[j] && b[j] <= 57;
                let d1 = 48 <= b[j + 1] && b[j + 1] <= 57;
                let d2 = 48 <= b[j + 2] && b[j + 2] <= 57;
                let d3 = 48 <= b[j + 3] && b[j + 3] <= 57;
                let d4 = 48 <= b[j + 4] && b[j + 4] <= 57;
                if d0 && d1 && d2 && d3 && d4 {
                    assert(long_exponent_at(b@, i as int)) by {
                        assert forall|k: int| j <= k < j + 5 implies #[trigger] is_digit_byte(
                            b@[k],
                        ) by {
                            if k == j + 4 {
                            } else if k == j + 3 {
                            } else if k == j + 2 {
                            } else if k == j + 1 {
                            }
                        }
                    }
                    return false;
                }
                assert(!is_digit_byte(b@[j as int]) || !is_digit_byte(b@[j + 1]) || !is_digit_byte(
                    b@[j + 2],
                ) || !is_digit_byte(b@[j + 3]) || !is_digit_byte(b@[j + 4]));
            }
        }
        i = i + 1;
    }
    true
}

/// What follows a parse of the timeout text: no duration is an `Invalid`
/// error, and a duration beyond the largest `u64` nanoseconds is held there.
pub fn timeout_from_parsed(parsed: Option<u128>) -> (r: Result<u64, TimeoutError>)
    ensures
        match parsed {
            Some(n) => r == Ok::<u64, TimeoutError>(clamped(n)),
            None => r == Err::<u64, TimeoutError>(TimeoutError::Invalid),
        },
{
    match parsed {
        Some(n) => {
            if n <= u64::MAX as u128 {
                Ok(n as u64)
            } else {
                Ok(u64::MAX)
            }
        },
        None => Err(TimeoutError::Invalid),
    }
}

/// Reads the text of a timeout as a number of nanoseconds.
pub fn parse_timeout(text: &str) -> (r: Result<u64, TimeoutError>)
    ensures
        r == timeout_outcome(text@),
{
    if !has_short_exponents(text) {
        return Err(TimeoutError::ExponentTooLong);
    }
    let parsed = match parse_duration_text(text) {
        Ok(n) => Some(n),
        Err(_) => None,
    };
    timeout_from_parsed(parsed)
}

/// The first value of the `timeout` parameter among a request's query pairs.
pub fn timeout_param(pairs: &Vec<(String, String)>) -> (r: Option<String>)
    ensures
        match first_timeout(pairs@) {
            Some(v) => r is Some && r->0@ == v,
            None => r is None,
        },
{
    let name = "timeout".to_owned();
    let mut i: usize = 0;
    assert(pairs@.subrange(0, pairs@.len() as int) =~= pairs@);
    while i < pairs.len()
        invariant
            name@ == "timeout"@,
            i <= pairs@.len(),
            first_timeout(pairs@) == first_timeout(pairs@.subrange(i as int, pairs@.len() as int)),
        decreases pairs@.len() - i,
    {
        let ghost rest = pairs@.subrange(i as int, pairs@.len() as int);
        assert(rest.drop_first() =~= pairs@.subrange(i + 1, pairs@.len() as int));
        if pairs[i].0 == name {
            return Some(pairs[i].1.clone());
        }
        i = i + 1;
    }
    None
}

/// The timeout that a pop request asks for: none when the query names no
/// `timeout`, else its first value read as nanoseconds.
pub fn request_timeout(pairs: &Vec<(String, String)>) -> (r: Result<Option<u64>, TimeoutError>)
    ensures
        match first_timeout(pairs@) {
            None => r == Ok::<Option<u64>, TimeoutError>(None),
            Some(v) => match timeout_outcome(v) {
                Ok(t) => r == Ok::<Option<u64>, TimeoutError>(Some(t)),
                Err(e) => r == Err::<Option<u64>, TimeoutError>(e),
            },
        },
{
    match timeout_param(pairs) {
        None => Ok(None),
        Some(v) => match parse_timeout(v.as_str()) {
            Ok(t) => Ok(Some(t)),
            Err(e) => Err(e),
        },
    }
}

/// The HTTP status that answers a pop: 200 with the message, 404 without.
pub fn response_status(found: &Option<Message>) -> (r: u16)
    ensures
        found is Some ==> r == 200,
        found is None ==> r == 404,
{
    match found {
        Some(_) => 200,
        None => 404,
    }
}

} // verus!
