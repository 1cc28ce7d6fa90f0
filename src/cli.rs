//! Reading the output format and the beat count given on the command line.
use vstd::prelude::*;
use vstd::string::*;
use crate::beat::{Beat, BeatError};
use crate::text::{all_digits, digit_value, digits_value};

verus! {

/// How a beat is written out.
#[derive(Debug, Clone, Copy, PartialEq, Eq, Structural)]
pub enum OutputFormat {
    /// `@NNN` on one line.
    Text,
    /// A JSON object on one line.
    Json,
    /// The three lines of a status-bar plugin.
    Swiftbar,
}

/// Whether two strings hold the same characters.
fn same_text(a: &str, b: &str) -> (r: bool)
    ensures
        r == (a@ == b@),
{
    let n = a.unicode_len();
    if n != b.unicode_len() {
        return false;
    }
    let mut i: usize = 0;
    while i < n
        invariant
            n == a@.len(),
            n == b@.len(),
            0 <= i <= n,
            a@.take(i as int) == b@.take(i as int),
        decreases n - i,
    {
        if a.get_char(i) != b.get_char(i) {
            assert(a@[i as int] != b@[i as int]);
            return false;
        }
        assert(a@.take(i + 1) =~= a@.take(i as int).push(a@[i as int]));
        assert(b@.take(i + 1) =~= b@.take(i as int).push(b@[i as int]));
        i = i + 1;
    }
    assert(a@ =~= a@.take(n as int));
    assert(b@ =~= b@.take(n as int));
    true
}

impl OutputFormat {
    /// Reads `text`, `json` or `swiftbar`; any other name is refused.
    pub fn parse(name: &str) -> (r: Result<OutputFormat, BeatError>)
        ensures
            name@ == "text"@ ==> r == Ok::<OutputFormat, BeatError>(OutputFormat::Text),
            name@ == "json"@ ==> r == Ok::<OutputFormat, BeatError>(OutputFormat::Json),
            name@ == "swiftbar"@ ==> r == Ok::<OutputFormat, BeatError>(OutputFormat::Swiftbar),
            name@ != "text"@ && name@ != "json"@ && name@ != "swiftbar"@ ==> r == Err::<
                OutputFormat,
                BeatError,
            >(BeatError::InvalidFormatArgument),
    {
        proof {
            reveal_strlit("text");
            reveal_strlit("json");
            reveal_strlit("swiftbar");
            assert("text"@[0] != "json"@[0]);
            assert("text"@.len() != "swiftbar"@.len());
            assert("json"@.len() != "swiftbar"@.len());
        }
        if same_text(name, "text") {
            Ok(OutputFormat::Text)
        } else if same_text(name, "json") {
            Ok(OutputFormat::Json)
        } else if same_text(name, "swiftbar") {
            Ok(OutputFormat::Swiftbar)
        } else {
            Err(BeatError::InvalidFormatArgument)
        }
    }
}

/// `n`, or 1000 when `n` is larger.
spec fn capped(n: int) -> int {
    if n > 1000 {
        1000
    } else {
        n
    }
}

/// Reads a beat count written as decimal digits. Text that is not a non-empty run of
/// digits is refused as an argument; a number above 999 is refused as a beat count.
pub fn parse_beats_argument(arg: &str) -> (r: Result<Beat, BeatError>)
    ensures
        r is Ok <==> arg@.len() > 0 && all_digits(arg@) && digits_value(arg@) <= 999,
        r is Ok ==> r->Ok_0.wf() && r->Ok_0.beats == digits_value(arg@),
        r == Err::<Beat, BeatError>(BeatError::InvalidBeatsArgument) <==> (arg@.len() == 0
            || !all_digits(arg@)),
        r == Err::<Beat, BeatError>(BeatError::InvalidBeatCount) <==> (arg@.len() > 0
            && all_digits(arg@) && digits_value(arg@) > 999),
{
    let n = arg.unicode_len();
    if n == 0 {
        return Err(BeatError::InvalidBeatsArgument);
    }
    let mut i: usize = 0;
    let mut value: u32 = 0;
    while i < n
        invariant
            n == arg@.len(),
            0 <= i <= n,
            all_digits(arg@.take(i as int)),
            digits_value(arg@.take(i as int)) >= 0,
            value == capped(digits_value(arg@.take(i as int))),
        decreases n - i,
    {
        let c = arg.get_char(i);
        let code = c as u32;
        if code < 48 || code > 57 {
            assert(digit_value(arg@[i as int]) is None);
            return Err(BeatError::InvalidBeatsArgument);
        }
        let d: u32 = code - 48;
        let ghost before = arg@.take(i as int);
        let ghost after = arg@.take(i + 1);
        assert(after.drop_last() =~= before);
        assert(digit_value(after.last()) == Some(d as int));
        assert(digits_value(after) == digits_value(before) * 10 + d);
        assert forall|j: int| 0 <= j < after.len() implies (#[trigger] digit_value(after[j])) is Some by {
            if j < before.len() {
                assert(after[j] == before[j]);
            }
        }
        if value < 1000 {
            value = value * 10 + d;
            if value > 1000 {
                value = 1000;
            }
        }
        i = i + 1;
    }
    assert(arg@.take(n as int) =~= arg@);
    if value > 999 {
        return Err(BeatError::InvalidBeatCount);
    }
    Beat::new(value as i16)
}

} // verus!
