//! The three lines that a status-bar plugin host shows for a beat.
use vstd::prelude::*;
use crate::beat::{display_text, time_of_beat, Beat};
use crate::text::{decimal, push_decimal, push_signed_decimal, signed_decimal};
use crate::timestamp::{utc_now, Timestamp};

verus! {

/// The address of the world clock page for a date and a beat count.
pub open spec fn lookup_url_text(date: Timestamp, beats: int) -> Seq<char> {
    "https://www.timeanddate.com/worldclock/fixedtime.html?day="@ + decimal(date.day as nat)
        + "&month="@ + decimal(date.month as nat) + "&year="@ + signed_decimal(date.year as int)
        + "&beats="@ + decimal(beats as nat) + "&p1=0"@
}

/// The line that shows the time of day of a beat and links to the world clock page.
pub open spec fn status_line_text(date: Timestamp, beats: int) -> Seq<char> {
    time_of_beat(beats).text() + " | href="@ + lookup_url_text(date, beats)
}

/// A beat as a status-bar plugin shows it.
pub struct BeatSwiftbarDecorator {
    pub beat: Beat,
}

impl BeatSwiftbarDecorator {
    /// The world clock page for this beat on the date of `date`.
    pub fn url_on(&self, date: &Timestamp) -> (r: String)
        requires
            self.beat.wf(),
        ensures
            r@ == lookup_url_text(*date, self.beat.beats as int),
    {
        let mut s = String::from_str("https://www.timeanddate.com/worldclock/fixedtime.html?day=");
        push_decimal(&mut s, date.day);
        s.append("&month=");
        push_decimal(&mut s, date.month);
        s.append("&year=");
        push_signed_decimal(&mut s, date.year);
        s.append("&beats=");
        push_decimal(&mut s, self.beat.beats as u32);
        s.append("&p1=0");
        assert(s@ =~= lookup_url_text(*date, self.beat.beats as int));
        s
    }

    /// The world clock page for this beat on today's date in UTC.
    pub fn url(&self) -> (r: String)
        requires
            self.beat.wf(),
        ensures
            exists|date: Timestamp|
                date.wf() && r@ == #[trigger] lookup_url_text(date, self.beat.beats as int),
    {
        let today = utc_now();
        self.url_on(&today)
    }

    /// The beat, a separator, and its time of day with a link to the world clock page
    /// for the date of `date`.
    pub fn lines_on(&self, date: &Timestamp) -> (r: Vec<String>)
        requires
            self.beat.wf(),
        ensures
            r.len() == 3,
            r[0]@ == display_text(self.beat.beats as int),
            r[1]@ == "---"@,
            r[2]@ == status_line_text(*date, self.beat.beats as int),
    {
        let mut status = self.beat.time().to_string();
        status.append(" | href=");
        let url = self.url_on(date);
        status.append(url.as_str());
        let mut r: Vec<String> = Vec::new();
        r.push(self.beat.to_string());
        r.push(String::from_str("---"));
        r.push(status);
        r
    }

    /// The three lines for this beat, linking to today's date in UTC.
    pub fn lines(&self) -> (r: Vec<String>)
        requires
            self.beat.wf(),
        ensures
            r.len() == 3,
            r[0]@ == display_text(self.beat.beats as int),
            r[1]@ == "---"@,
            exists|date: Timestamp|
                date.wf() && r[2]@ == #[trigger] status_line_text(date, self.beat.beats as int),
    {
        let today = utc_now();
        self.lines_on(&today)
    }
}

} // verus!
