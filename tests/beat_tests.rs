use chrono::{DateTime, Datelike, FixedOffset, Timelike, Utc};
use gil_beats::{Beat, BeatSwiftbarDecorator, TimeOfDay, Timestamp};

fn date_time_string() -> String {
    format!(
        "{}T{:02}:{:02}:{:02}+01:00",
        Utc::now().format("%Y-%m-%d").to_string(),
        0,
        0,
        0
    )
}

fn subject() -> Beat {
    Beat::new(0).unwrap()
}

fn timestamp_of(datetime: &DateTime<FixedOffset>) -> Timestamp {
    Timestamp {
        year: datetime.year(),
        month: datetime.month(),
        day: datetime.day(),
        hour: datetime.hour(),
        minute: datetime.minute(),
        second: datetime.second(),
        offset_seconds: datetime.offset().local_minus_utc(),
    }
}

fn time_of(datetime: &DateTime<FixedOffset>) -> TimeOfDay {
    TimeOfDay {
        hours: datetime.hour(),
        minutes: datetime.minute(),
        seconds: datetime.second(),
    }
}

#[test]
fn test_now() {
    let beat = Beat::now();
    let other_beats = Beat::new(beat.beats);

    assert!(other_beats.is_ok());
    assert_eq!(beat.time(), other_beats.unwrap().time());
}

#[test]
fn test_with_hours_and_minutes() {
    assert_eq!(Beat::with_hms(0, 0, 0).unwrap().beats(), 0);
    assert_eq!(Beat::with_hms(0, 2, 0).unwrap().beats(), 1);
    assert_eq!(Beat::with_hms(6, 0, 1).unwrap().beats(), 250);
    assert_eq!(Beat::with_hms(12, 0, 1).unwrap().beats(), 500);
    assert_eq!(Beat::with_hms(18, 0, 1).unwrap().beats(), 750);
    assert_eq!(Beat::with_hms(23, 59, 59).unwrap().beats(), 999);

    assert!(Beat::with_hms(0, 0, 87).is_err());
    assert!(Beat::with_hms(0, 61, 0).is_err());
    assert!(Beat::with_hms(24, 0, 1).is_err());
}

#[test]
fn test_to_string() {
    let beat = subject();
    assert_eq!(beat.to_string(), "@000");
}

#[test]
fn test_swiftbar_decorator_url() {
    let datetime = Utc::now();

    let url = format!(
        "https://www.timeanddate.com/worldclock/fixedtime.html?day={}&month={}&year={}&beats=0&p1=0",
        datetime.day(),
        datetime.month(),
        datetime.year());
    assert_eq!(BeatSwiftbarDecorator { beat: subject() }.url(), url);
}

#[test]
fn test_to_json() {
    assert_eq!(
        subject().to_json(),
        format!("{{\"beats\":0,\"time\":\"{}\"}}", "00:00:00")
    );
}

#[test]
fn test_with_datetime() {
    let datetime = DateTime::parse_from_rfc3339(&date_time_string()).unwrap();

    assert!(Beat::with_datetime(timestamp_of(&datetime)).is_ok());
    assert_eq!(
        Beat::with_datetime(timestamp_of(&datetime)).unwrap().time(),
        time_of(&datetime)
    );

    let dt_incorrect_tz = DateTime::parse_from_rfc3339("2021-11-03T11:00:01+00:00").unwrap();
    assert!(Beat::with_datetime(timestamp_of(&dt_incorrect_tz)).is_ok());
    assert_eq!(Beat::with_datetime(timestamp_of(&dt_incorrect_tz)).unwrap().beats(), 500);
}

#[test]
fn test_with_datetime_beats() {
    let time = DateTime::parse_from_rfc3339(&date_time_string()).unwrap();

    assert!(Beat::with_datetime(timestamp_of(&time)).is_ok());
    assert_eq!(Beat::with_datetime(timestamp_of(&time)).unwrap().beats(), 0);
}
