use uc3m_timetable::ical::components::{Event, Recurrence, TimeUnit};
use uc3m_timetable::ical::{format_date_time, Calendar, Component, Param, Prop};
use uc3m_timetable::time::{CivilDateTime, Duration, ZonedDateTime};
use uc3m_timetable::UC3M_TIMEZONE;

fn utc(y: i32, mo: u32, d: u32, h: u32, mi: u32, s: u32) -> ZonedDateTime {
    ZonedDateTime::from_utc(UC3M_TIMEZONE, CivilDateTime::new(y, mo, d, h, mi, s)).unwrap()
}

#[test]
fn prop_display() {
    assert_eq!(
        Prop::new("TITLE", "Hello world!").to_string(),
        "TITLE:Hello world!\r\n"
    );

    let mut prop = Prop::new("TABLE", "The value.");
    prop.params_mut().push(Param::new("ROW", vec![";,".into()]));
    assert_eq!(prop.to_string(), "TABLE;ROW=\";,\":The value.\r\n");

    let mut prop = Prop::new("NAME", "Something.");
    prop.params_mut().extend([
        Param::new("FOO", vec!["bar".into(), "baz".into()]),
        Param::new(
            "ANOTHER",
            vec!["hello".into(), "beautiful".into(), "world".into()],
        ),
    ]);
    assert_eq!(
        prop.to_string(),
        "NAME;FOO=\"bar\",\"baz\";ANOTHER=\"hello\",\"beautiful\",\"world\":Something.\r\n"
    );

    assert_eq!(Prop::new("DESCRIPTION", "This is a long description that exists on multiple long lines since this is a very long string that exceeds the maximum number of bytes allowed by the iCalendar specification published in the Request for Comments 5545 in September 2009.").to_string(), "DESCRIPTION:This is a long description that exists on multiple long lines s\r\n ince this is a very long string that exceeds the maximum number of bytes a\r\n llowed by the iCalendar specification published in the Request for Comment\r\n s 5545 in September 2009.\r\n");
}

#[test]
fn single_event() {
    let date = utc(2022, 8, 19, 19, 52, 3); // 21:52:03 in Madrid
    let event = Event::new("5678", date, date);
    let calendar = Calendar::new("test", "2.0", vec![event.into_component()]);
    assert_eq!(calendar.to_string(), "BEGIN:VCALENDAR\r\nPRODID:test\r\nVERSION:2.0\r\nBEGIN:VEVENT\r\nDTSTAMP;TZID=\"/Europe/Madrid\":20220819T215203\r\nUID:5678\r\nDTSTART;TZID=\"/Europe/Madrid\":20220819T215203\r\nEND:VEVENT\r\nEND:VCALENDAR\r\n");
}

#[test]
fn weekly_event() {
    let last_modified = utc(2022, 8, 17, 22, 16, 0); // 2022-08-18T00:16:00 in Madrid
    let first_lecture = utc(2022, 9, 12, 9, 0, 0); // 2022-09-12T11:00:00 in Madrid
    let event = Event::new("lecture", last_modified, first_lecture)
        .duration(Duration::hours(2))
        .created_on(last_modified)
        .summary("Lecture")
        .location("Room 101")
        .recurrence(Recurrence::times(TimeUnit::Week, 12));
    let calendar = Calendar::new("scheduler", "2.0", vec![event.into_component()]);
    assert_eq!(calendar.to_string(), "BEGIN:VCALENDAR\r\nPRODID:scheduler\r\nVERSION:2.0\r\nBEGIN:VEVENT\r\nDTSTAMP;TZID=\"/Europe/Madrid\":20220818T001600\r\nUID:lecture\r\nDTSTART;TZID=\"/Europe/Madrid\":20220912T110000\r\nCREATED;TZID=\"/Europe/Madrid\":20220818T001600\r\nSUMMARY:Lecture\r\nLOCATION:Room 101\r\nDURATION:PT7200S\r\nRRULE:FREQ=WEEKLY;COUNT=12\r\nEND:VEVENT\r\nEND:VCALENDAR\r\n");
}

#[test]
fn event_builder() {
    let last_modified = utc(2022, 8, 19, 10, 0, 0);
    let start = utc(2022, 8, 22, 10, 0, 0);
    let end = utc(2022, 8, 22, 10, 30, 0);
    let event = Event::new("1234", last_modified, start)
        .summary("Important Meeting")
        .description("A very important meeting.")
        .location("Room 101")
        .end(end);
    let component = event.into_component();
    assert_eq!(component.first_prop("UID").unwrap().value(), "1234");
    assert_eq!(
        component.first_prop("SUMMARY").unwrap().value(),
        "Important Meeting"
    );
    assert_eq!(
        component.first_prop("DESCRIPTION").unwrap().value(),
        "A very important meeting."
    );
    assert_eq!(component.first_prop("LOCATION").unwrap().value(), "Room 101");
    assert!(component.has_prop("DTSTAMP"));
    assert!(component.has_prop("DTSTART"));
    assert!(component.has_prop("DTEND"));
    assert!(!component.has_prop("DURATION"));
}

#[test]
fn display_recurrence() {
    let rule = Recurrence::times(TimeUnit::Day, 3);
    assert_eq!(rule.to_string(), "FREQ=DAILY;COUNT=3");

    let last_date = utc(2022, 8, 19, 20, 30, 15);
    let rule = Recurrence::until(TimeUnit::Week, last_date);
    assert_eq!(rule.to_string(), "FREQ=WEEKLY;UNTIL=20220819T203015");

    let mut rule = Recurrence::times(TimeUnit::Hour, 10);
    rule.interval(2);
    assert_eq!(rule.to_string(), "FREQ=HOURLY;COUNT=10;INTERVAL=2");
}

#[test]
fn event_properties_come_in_fixed_order() {
    let t = utc(2022, 1, 10, 8, 0, 0); // 09:00 in Madrid
    let event = Event::new("x", t, t)
        .recurrence(Recurrence::times(TimeUnit::Day, 2))
        .duration(Duration::minutes(45))
        .location("L")
        .description("D")
        .summary("S")
        .created_on(t);
    let names: Vec<String> = event
        .into_component()
        .props()
        .iter()
        .map(|p| p.to_string().split(|c| c == ';' || c == ':').next().unwrap().to_string())
        .collect();
    assert_eq!(
        names,
        vec!["DTSTAMP", "UID", "DTSTART", "CREATED", "SUMMARY", "DESCRIPTION", "LOCATION", "DURATION", "RRULE"]
    );
}

#[test]
fn text_values_are_escaped() {
    assert_eq!(
        Prop::text("X", &["a;b,c\\d"]).to_string(),
        "X:a\\;b\\,c\\\\d\r\n"
    );
    assert_eq!(Prop::text("X", &["line\nbreak"]).to_string(), "X:line\\nbreak\r\n");
    assert_eq!(Prop::text("X", &["a,b", "c;d"]).to_string(), "X:a\\,b,c\\;d\r\n");
    let none: [&str; 0] = [];
    assert_eq!(Prop::text("X", &none).to_string(), "X:\r\n");
}

#[test]
fn folding_counts_octets_not_characters() {
    // 73 ASCII octets, then two-octet characters: the first one fits
    // (75 octets), the next one starts a new line.
    let value = format!("{}\u{e9}\u{e9}", "a".repeat(70));
    let folded = Prop::new("AB", &value).to_string();
    assert_eq!(folded, format!("AB:{}\u{e9}\r\n \u{e9}\r\n", "a".repeat(70)));
    let unfolded = folded.replace("\r\n ", "");
    assert_eq!(unfolded, format!("AB:{}\r\n", value));
}

#[test]
fn folded_lines_stay_within_limit() {
    let value = "x".repeat(300);
    let folded = Prop::new("DESCRIPTION", &value).to_string();
    for line in folded.split("\r\n") {
        assert!(line.len() <= 75);
    }
    assert_eq!(folded.replace("\r\n ", ""), format!("DESCRIPTION:{}\r\n", value));
}

#[test]
fn date_times_render_without_separators() {
    assert_eq!(format_date_time(&CivilDateTime::new(2022, 3, 4, 5, 6, 7)), "20220304T050607");
    assert_eq!(format_date_time(&CivilDateTime::new(987, 12, 31, 23, 59, 59)), "09871231T235959");
}

#[test]
fn date_time_prop_names_zone_by_global_id() {
    let t = utc(2022, 1, 10, 8, 0, 0);
    assert_eq!(
        Prop::date_time("DTSTART", &t).to_string(),
        "DTSTART;TZID=\"/Europe/Madrid\":20220110T090000\r\n"
    );
}

#[test]
fn component_renders_between_begin_and_end() {
    let c = Component::new("VTODO", vec![Prop::new("UID", "1")]);
    assert_eq!(c.to_string(), "BEGIN:VTODO\r\nUID:1\r\nEND:VTODO\r\n");
}

#[test]
fn calendar_components_can_be_added() {
    let mut calendar = Calendar::new("p", "2.0", vec![Component::new("VTODO", Vec::new())]);
    calendar.components_mut().push(Component::new("VJOURNAL", Vec::new()));
    assert_eq!(calendar.components().len(), 2);
    assert_eq!(calendar.to_string(), "BEGIN:VCALENDAR\r\nPRODID:p\r\nVERSION:2.0\r\nBEGIN:VTODO\r\nEND:VTODO\r\nBEGIN:VJOURNAL\r\nEND:VJOURNAL\r\nEND:VCALENDAR\r\n");
}

#[test]
fn recurrence_keywords() {
    assert_eq!(TimeUnit::Second.recurrence_freq(), "SECONDLY");
    assert_eq!(TimeUnit::Minute.recurrence_freq(), "MINUTELY");
    assert_eq!(TimeUnit::Month.recurrence_freq(), "MONTHLY");
    assert_eq!(TimeUnit::Year.recurrence_freq(), "YEARLY");
}

#[test]
fn zone_conversion_needs_a_known_zone_and_a_valid_time() {
    assert!(ZonedDateTime::from_utc("Nowhere/Land", CivilDateTime::new(2022, 1, 1, 0, 0, 0)).is_none());
    assert!(ZonedDateTime::from_utc(UC3M_TIMEZONE, CivilDateTime::new(2022, 2, 29, 0, 0, 0)).is_none());
    // 02:30 on the last Sunday of March does not exist in Madrid.
    assert!(ZonedDateTime::from_local(UC3M_TIMEZONE, CivilDateTime::new(2022, 3, 27, 2, 30, 0)).is_none());
    let t = ZonedDateTime::from_local(UC3M_TIMEZONE, CivilDateTime::new(2022, 7, 1, 12, 0, 0)).unwrap();
    assert_eq!(t.utc, CivilDateTime::new(2022, 7, 1, 10, 0, 0));
}

#[test]
fn line_of_exactly_seventy_five_octets_is_not_folded() {
    let value = "v".repeat(73);
    assert_eq!(Prop::new("X", &value).to_string(), format!("X:{}\r\n", value));
    let value = "v".repeat(74);
    assert_eq!(Prop::new("X", &value).to_string(), format!("X:{}\r\n v\r\n", "v".repeat(73)));
}
