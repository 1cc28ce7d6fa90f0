//! Beats: thousandths of a day, counted from midnight in UTC+1.
use vstd::prelude::*;
use crate::text::{
    all_digits, decimal, digit_value, digits_value, lemma_decimal_value, lemma_digit_char_value,
    push_decimal, push_three_digits, push_two_digits, three_digits, two_digits,
};
use crate::timestamp::{utc_now, Timestamp, BMT_OFFSET_SECONDS};

verus! {

/// The ways in which building a beat or reading the command line can fail.
#[derive(Debug, Clone, Copy, PartialEq, Eq, Structural)]
pub enum BeatError {
    /// A beat count outside `0..=999`.
    InvalidBeatCount,
    /// An hour, minute or second outside its range.
    InvalidTimeOfDay,
    /// An output format that is not `text`, `json` or `swiftbar`.
    InvalidFormatArgument,
    /// A beat count argument that is not a decimal number.
    InvalidBeatsArgument,
}

/// Whether hours, minutes and seconds name a time of day.
pub open spec fn is_time_of_day(hours: int, minutes: int, seconds: int) -> bool {
    0 <= hours < 24 && 0 <= minutes < 60 && 0 <= seconds < 60
}

/// Seconds elapsed since midnight at the given time of day.
pub open spec fn second_of_day(hours: int, minutes: int, seconds: int) -> int {
    hours * 3600 + minutes * 60 + seconds
}

/// The beat in which a second of the day falls: `floor(second / 86.4)`.
pub open spec fn beat_of_second(second: int) -> int {
    (second * 10) / 864
}

/// The second of the day at which a beat starts: `floor(beat * 86.4)`.
pub open spec fn second_of_beat(beat: int) -> int {
    (beat * 864) / 10
}

/// The `@NNN` text of a beat count.
pub open spec fn display_text(beats: int) -> Seq<char> {
    seq!['@'] + three_digits(beats)
}

/// Every second of the day falls in a beat in `0..=999`.
pub proof fn lemma_beat_of_second_bounds(second: int)
    requires
        0 <= second < 86400,
    ensures
        0 <= beat_of_second(second) <= 999,
{
    assert(0 <= (second * 10) / 864 <= 999) by (nonlinear_arith)
        requires
            0 <= second < 86400,
    ;
}

/// Every beat in `0..=999` starts within the day.
pub proof fn lemma_second_of_beat_bounds(beat: int)
    requires
        0 <= beat <= 999,
    ensures
        0 <= second_of_beat(beat) < 86400,
{
    assert(0 <= (beat * 864) / 10 < 86400) by (nonlinear_arith)
        requires
            0 <= beat <= 999,
    ;
}

/// A time of day, as the hours, minutes and seconds a clock shows.
#[derive(Debug, Clone, Copy, PartialEq, Eq, Structural)]
pub struct TimeOfDay {
    pub hours: u32,
    pub minutes: u32,
    pub seconds: u32,
}

impl TimeOfDay {
    pub open spec fn wf(&self) -> bool {
        is_time_of_day(self.hours as int, self.minutes as int, self.seconds as int)
    }

    /// The `HH:MM:SS` text of this time.
    pub open spec fn text(&self) -> Seq<char> {
        two_digits(self.hours as int) + seq![':'] + two_digits(self.minutes as int) + seq![':']
            + two_digits(self.seconds as int)
    }

    /// Renders the time as `HH:MM:SS`.
    pub fn to_string(&self) -> (r: String)
        requires
            self.wf(),
        ensures
            r@ == self.text(),
    {
        let mut s = String::new();
        push_two_digits(&mut s, self.hours);
        s.append(":");
        push_two_digits(&mut s, self.minutes);
        s.append(":");
        push_two_digits(&mut s, self.seconds);
        proof {
            reveal_strlit(":");
        }
        assert(s@ =~= self.text());
        s
    }
}

/// A count of beats since midnight in UTC+1.
#[derive(Debug, Clone, Copy, PartialEq, Eq, Structural)]
pub struct Beat {
    pub beats: i16,
}

impl Beat {
    /// A beat count lies in `0..=999`.
    pub open spec fn wf(&self) -> bool {
        0 <= self.beats <= 999
    }

    /// Makes a beat from a count, which must lie in `0..=999`.
    pub fn new(beats: i16) -> (r: Result<Beat, BeatError>)
        ensures
            r is Ok <==> 0 <= beats <= 999,
            r is Ok ==> r->Ok_0.beats == beats && r->Ok_0.wf(),
            r is Err ==> r->Err_0 == BeatError::InvalidBeatCount,
    {
        if beats >= 0 && beats < 1000 {
            Ok(Beat { beats })
        } else {
            Err(BeatError::InvalidBeatCount)
        }
    }

    /// The beat in which the given time of day falls.
    pub fn with_hms(hours: i32, minutes: i32, seconds: i32) -> (r: Result<Beat, BeatError>)
        ensures
            r is Ok <==> is_time_of_day(hours as int, minutes as int, seconds as int),
            r is Ok ==> r->Ok_0.wf() && r->Ok_0.beats == beat_of_second(
                second_of_day(hours as int, minutes as int, seconds as int),
            ),
            r is Err ==> r->Err_0 == BeatError::InvalidTimeOfDay,
    {
        if hours < 0 || hours >= 24 {
            return Err(BeatError::InvalidTimeOfDay);
        }
        if minutes < 0 || minutes >= 60 {
            return Err(BeatError::InvalidTimeOfDay);
        }
        if seconds < 0 || seconds >= 60 {
            return Err(BeatError::InvalidTimeOfDay);
        }
        let seconds_of_day: i32 = seconds + minutes * 60 + hours * 3600;
        proof {
            lemma_beat_of_second_bounds(seconds_of_day as int);
        }
        let count = (seconds_of_day * 10 / 864) as i16;
        Beat::new(count)
    }

    /// The beat in which the instant of a timestamp falls, whatever its offset.
    pub fn with_datetime(datetime: Timestamp) -> (r: Result<Beat, BeatError>)
        ensures
            r is Ok <==> datetime.has_time_of_day(),
            r is Ok ==> r->Ok_0.wf() && r->Ok_0.beats == beat_of_second(
                datetime.bmt_second_of_day(),
            ),
            r is Err ==> r->Err_0 == BeatError::InvalidTimeOfDay,
    {
        if datetime.hour >= 24 || datetime.minute >= 60 || datetime.second >= 60 {
            return Err(BeatError::InvalidTimeOfDay);
        }
        if datetime.offset_seconds <= -86400 || datetime.offset_seconds >= 86400 {
            return Err(BeatError::InvalidTimeOfDay);
        }
        let bmt = bmt_second_of_day(&datetime);
        let hours = bmt / 3600;
        let minutes = bmt % 3600 / 60;
        let seconds = bmt % 60;
        proof {
            lemma_split_second_of_day(bmt as int);
        }
        Beat::with_hms(hours, minutes, seconds)
    }

    /// The beat of the current instant.
    pub fn now() -> (r: Beat)
        ensures
            r.wf(),
            exists|t: Timestamp| t.wf() && r.beats == beat_of_second(#[trigger] t.bmt_second_of_day()),
    {
        let instant = utc_now();
        match Beat::with_datetime(instant) {
            Ok(beat) => beat,
            Err(_) => vstd::pervasive::unreached(),
        }
    }

    /// The beat count.
    pub fn beats(&self) -> (r: i16)
        ensures
            r == self.beats,
    {
        self.beats
    }

    /// Renders the beat as `@` and three digits, zero-padded.
    pub fn to_string(&self) -> (r: String)
        requires
            self.wf(),
        ensures
            r@ == display_text(self.beats as int),
    {
        let mut s = String::from_str("@");
        proof {
            reveal_strlit("@");
        }
        push_three_digits(&mut s, self.beats as u32);
        assert(s@ =~= display_text(self.beats as int));
        s
    }

    /// The time of day at which this beat starts.
    pub fn time(&self) -> (r: TimeOfDay)
        requires
            self.wf(),
        ensures
            r.wf(),
            r == time_of_beat(self.beats as int),
    {
        proof {
            lemma_second_of_beat_bounds(self.beats as int);
        }
        let total: u32 = (self.beats as u32) * 864 / 10;
        TimeOfDay { hours: total / 3600 % 24, minutes: total / 60 % 60, seconds: total % 60 }
    }

    /// Renders the beat and its time of day as a JSON object.
    pub fn to_json(&self) -> (r: String)
        requires
            self.wf(),
        ensures
            r@ == json_text(self.beats as int, time_of_beat(self.beats as int)),
    {
        let obj = BeatJSON { beats: self.beats, time: self.time() };
        obj.to_json()
    }
}

/// The fields of a beat as they appear in its JSON form.
#[derive(Debug, Clone, Copy, PartialEq, Eq, Structural)]
pub struct BeatJSON {
    pub beats: i16,
    pub time: TimeOfDay,
}

impl BeatJSON {
    /// Renders `{"beats":N,"time":"HH:MM:SS"}`, with `N` in shortest decimal form.
    pub fn to_json(&self) -> (r: String)
        requires
            0 <= self.beats,
            self.time.wf(),
        ensures
            r@ == json_text(self.beats as int, self.time),
    {
        let mut s = String::from_str("{\"beats\":");
        push_decimal(&mut s, self.beats as u32);
        s.append(",\"time\":\"");
        let time = self.time.to_string();
        s.append(time.as_str());
        s.append("\"}");
        assert(s@ =~= json_text(self.beats as int, self.time));
        s
    }
}

/// The JSON text of a beat count and a time of day.
pub open spec fn json_text(beats: int, time: TimeOfDay) -> Seq<char> {
    "{\"beats\":"@ + decimal(beats as nat) + ",\"time\":\""@ + time.text() + "\"}"@
}

/// The time of day at which a beat starts.
pub open spec fn time_of_beat(beat: int) -> TimeOfDay {
    let total = second_of_beat(beat);
    TimeOfDay {
        hours: ((total / 3600) % 24) as u32,
        minutes: ((total / 60) % 60) as u32,
        seconds: (total % 60) as u32,
    }
}

/// The second of the day on a clock in UTC+1 at the instant of `datetime`.
fn bmt_second_of_day(datetime: &Timestamp) -> (r: i32)
    requires
        datetime.has_time_of_day(),
    ensures
        r == datetime.bmt_second_of_day(),
        0 <= r < 86400,
{
    let local: i32 = (datetime.hour * 3600 + datetime.minute * 60 + datetime.second) as i32;
    let shifted: i32 = local - datetime.offset_seconds + BMT_OFFSET_SECONDS;
    let mut bmt: i32 = shifted;
    if bmt < 0 {
        bmt = bmt + 86400;
    }
    if bmt >= 86400 {
        bmt = bmt - 86400;
    }
    if bmt >= 86400 {
        bmt = bmt - 86400;
    }
    assert(bmt == shifted % 86400) by {
        vstd::arithmetic::div_mod::lemma_fundamental_div_mod_converse(
            shifted as int,
            86400,
            (shifted - bmt) / 86400,
            bmt as int,
        );
    }
    bmt
}

proof fn lemma_split_second_of_day(second: int)
    requires
        0 <= second < 86400,
    ensures
        is_time_of_day(second / 3600, (second % 3600) / 60, second % 60),
        second_of_day(second / 3600, (second % 3600) / 60, second % 60) == second,
{
    assert((second % 3600) % 60 == second % 60) by {
        vstd::arithmetic::div_mod::lemma_mod_mod(second, 60, 60);
    }
}

/// The leading run of decimal digits of `s`.
pub open spec fn leading_digits(s: Seq<char>) -> Seq<char>
    decreases s.len(),
{
    if s.len() > 0 && digit_value(s[0]) is Some {
        seq![s[0]] + leading_digits(s.drop_first())
    } else {
        Seq::empty()
    }
}

/// The number that a reader finds in the `beats` member of a JSON text of the shape
/// `{"beats":N,...`, or `None` when the text does not have that shape.
pub open spec fn json_beats_member(text: Seq<char>) -> Option<int> {
    let key = "{\"beats\":"@;
    if text.len() >= key.len() && text.take(key.len() as int) == key {
        let digits = leading_digits(text.skip(key.len() as int));
        if digits.len() > 0 {
            Some(digits_value(digits))
        } else {
            None
        }
    } else {
        None
    }
}

proof fn lemma_leading_digits_of_numeral(digits: Seq<char>, rest: Seq<char>)
    requires
        all_digits(digits),
        rest.len() > 0,
        digit_value(rest[0]) is None,
    ensures
        leading_digits(digits + rest) == digits,
    decreases digits.len(),
{
    let s = digits + rest;
    if digits.len() == 0 {
        assert(s =~= rest);
    } else {
        assert(digit_value(digits[0]) is Some);
        assert(s[0] == digits[0]);
        assert(s.drop_first() =~= digits.drop_first() + rest);
        assert(all_digits(digits.drop_first())) by {
            assert forall|i: int| 0 <= i < digits.drop_first().len() implies (#[trigger] digit_value(
                digits.drop_first()[i],
            )) is Some by {
                assert(digits.drop_first()[i] == digits[i + 1]);
            }
        }
        lemma_leading_digits_of_numeral(digits.drop_first(), rest);
        assert(seq![digits[0]] + digits.drop_first() =~= digits);
    }
}

/// Reading the `beats` member back from the JSON form of a valid beat gives its count.
pub proof fn lemma_json_beats_round_trip(beat: Beat)
    requires
        beat.wf(),
    ensures
        json_beats_member(json_text(beat.beats as int, time_of_beat(beat.beats as int))) == Some(
            beat.beats as int,
        ),
{
    let n = beat.beats as nat;
    let key = "{\"beats\":"@;
    let rest = ",\"time\":\""@ + time_of_beat(beat.beats as int).text() + "\"}"@;
    reveal_strlit("{\"beats\":");
    reveal_strlit(",\"time\":\"");
    let text = json_text(beat.beats as int, time_of_beat(beat.beats as int));
    assert(text =~= key + (decimal(n) + rest));
    assert(text.take(key.len() as int) =~= key);
    assert(text.skip(key.len() as int) =~= decimal(n) + rest);
    lemma_decimal_value(n);
    assert(rest[0] == ',');
    lemma_leading_digits_of_numeral(decimal(n), rest);
}

/// Every beat count in `0..=999` displays as `@` followed by exactly three decimal digits
/// that spell the count.
pub proof fn lemma_display_is_padded_numeral(beats: int)
    requires
        0 <= beats <= 999,
    ensures
        display_text(beats).len() == 4,
        display_text(beats)[0] == '@',
        all_digits(display_text(beats).skip(1)),
        digits_value(display_text(beats).skip(1)) == beats,
{
    let digits = display_text(beats).skip(1);
    assert(digits =~= three_digits(beats));
    lemma_digit_char_value(beats / 100);
    lemma_digit_char_value((beats / 10) % 10);
    lemma_digit_char_value(beats % 10);
    let one = digits.drop_last().drop_last();
    assert(one.drop_last() =~= Seq::<char>::empty());
    assert(digits_value(Seq::<char>::empty()) == 0);
    assert(digits_value(one) == beats / 100);
    assert(digits_value(digits.drop_last()) == (beats / 100) * 10 + (beats / 10) % 10);
}

/// Going from a second of the day to its beat and back lands on the start of that beat:
/// at or before the second, and less than 87 seconds (one beat, rounded up) before it.
pub proof fn lemma_time_round_trip_truncates(second: int)
    requires
        0 <= second < 86400,
    ensures
        second_of_beat(beat_of_second(second)) <= second,
        second - second_of_beat(beat_of_second(second)) <= 87,
{
    let b = beat_of_second(second);
    assert(b * 864 <= second * 10 < b * 864 + 864) by {
        vstd::arithmetic::div_mod::lemma_fundamental_div_mod(second * 10, 864);
    }
    assert((b * 864) / 10 <= second && second - (b * 864) / 10 <= 87) by (nonlinear_arith)
        requires
            b * 864 <= second * 10 < b * 864 + 864,
    ;
}

/// Of two times on the same day, the later one never falls in an earlier beat.
pub proof fn lemma_beats_monotone(
    hours1: int,
    minutes1: int,
    seconds1: int,
    hours2: int,
    minutes2: int,
    seconds2: int,
)
    requires
        is_time_of_day(hours1, minutes1, seconds1),
        is_time_of_day(hours2, minutes2, seconds2),
        second_of_day(hours1, minutes1, seconds1) < second_of_day(hours2, minutes2, seconds2),
    ensures
        beat_of_second(second_of_day(hours1, minutes1, seconds1)) <= beat_of_second(
            second_of_day(hours2, minutes2, seconds2),
        ),
{
    let a = second_of_day(hours1, minutes1, seconds1);
    let b = second_of_day(hours2, minutes2, seconds2);
    assert((a * 10) / 864 <= (b * 10) / 864) by (nonlinear_arith)
        requires
            0 <= a < b,
    ;
}

} // verus!
