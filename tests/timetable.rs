use uc3m_timetable::dom::{Document, NodeKind};
use uc3m_timetable::parse::{ParseError, Parser};
use uc3m_timetable::time::{CivilDateTime, ZonedDateTime};
use uc3m_timetable::{Timetable, TimetableId, TimetableUrlParseError, UrlParts, UC3M_TIMEZONE};

const URL: &str = "https://aplicaciones.uc3m.es/horarios-web/publicacion/2022/porCentroPlanCursoGrupo.tt?plan=433&centro=2&curso=4&grupo=121&tipoPer=C&valorPer=1";

#[test]
fn timetable_to_url() {
    let timetable = TimetableId::new(2022, 433, 2, 4, 121, 1, UC3M_TIMEZONE);
    assert_eq!(timetable.url().unwrap(), URL);
}

#[test]
fn url_to_timetable() {
    assert_eq!(
        TimetableId::from_url(URL).unwrap(),
        TimetableId::new(2022, 433, 2, 4, 121, 1, UC3M_TIMEZONE)
    );
}

#[test]
fn address_round_trip() {
    for id in [
        TimetableId::new(2022, 433, 2, 4, 121, 1, UC3M_TIMEZONE),
        TimetableId::new(-7, 0, 255, 0, 65535, 255, UC3M_TIMEZONE),
        TimetableId::new(i32::MAX, u16::MAX, 0, 9, 0, 0, UC3M_TIMEZONE),
    ] {
        assert_eq!(TimetableId::from_url(&id.url().unwrap()).unwrap(), id);
    }
}

#[test]
fn address_errors() {
    assert_eq!(TimetableId::from_url("not a url"), Err(TimetableUrlParseError::InvalidUrl));
    assert_eq!(
        TimetableId::from_url("https://10.0.0.1/horarios-web/publicacion/2022/x"),
        Err(TimetableUrlParseError::MissingDomain)
    );
    assert_eq!(
        TimetableId::from_url("https://example.com/horarios-web/publicacion/2022/x"),
        Err(TimetableUrlParseError::IncorrectDomain)
    );
    assert_eq!(
        TimetableId::from_url("https://aplicaciones.uc3m.es/horarios-web"),
        Err(TimetableUrlParseError::MissingYearSegment)
    );
    assert_eq!(
        TimetableId::from_url("https://aplicaciones.uc3m.es/a/b/20x2/c"),
        Err(TimetableUrlParseError::InvalidYearSegment)
    );
    assert_eq!(
        TimetableId::from_url("https://aplicaciones.uc3m.es/a/b/2022/c?plan=1&centro=2&curso=3&grupo=4"),
        Err(TimetableUrlParseError::MissingQueryParam("valorPer"))
    );
    assert_eq!(
        TimetableId::from_url("https://aplicaciones.uc3m.es/a/b/2022/c?plan=1&centro=256&curso=3&grupo=4&valorPer=1"),
        Err(TimetableUrlParseError::InvalidQueryParam("centro"))
    );
    // A repeated key keeps its last value.
    assert_eq!(
        TimetableId::from_url("https://aplicaciones.uc3m.es/a/b/2022/c?plan=9&plan=1&centro=2&curso=3&grupo=4&valorPer=5")
            .unwrap(),
        TimetableId::new(2022, 1, 2, 3, 4, 5, UC3M_TIMEZONE)
    );
}

#[test]
fn parts_without_base_are_refused() {
    let parts = UrlParts {
        domain: Some("aplicaciones.uc3m.es".to_string()),
        segments: None,
        query: Vec::new(),
    };
    assert_eq!(TimetableId::try_from_parts(&parts), Err(TimetableUrlParseError::CannotBeABaseUrl));
}

fn element(name: &str, classes: &[&str], attrs: &[(&str, &str)]) -> NodeKind {
    NodeKind::Element {
        name: name.to_string(),
        classes: classes.iter().map(|c| c.to_string()).collect(),
        attrs: attrs.iter().map(|(k, v)| (k.to_string(), v.to_string())).collect(),
    }
}

fn text(doc: &mut Document, t: &str) {
    doc.push_leaf(NodeKind::Text(t.to_string()));
}

/// A session cell: `(rowspan, course, [(date range, location)])`.
fn cell(doc: &mut Document, rowspan: Option<&str>, course: &str, sessions: &[(&str, &str)]) {
    let attrs: Vec<(&str, &str)> = rowspan.map(|r| vec![("rowspan", r)]).unwrap_or_default();
    doc.open_node(element("td", &["celdaConSesion"], &attrs));
    doc.open_node(element("div", &["asignaturaGrupo"], &[]));
    text(doc, course);
    doc.open_node(element("div", &["fechasSesion"], &[]));
    for (range, location) in sessions {
        doc.open_node(element("span", &[], &[]));
        text(doc, range);
        doc.close();
        doc.open_node(element("span", &[], &[]));
        text(doc, location);
        doc.close();
        doc.push_leaf(element("br", &[], &[]));
    }
    doc.close();
    doc.close();
    doc.close();
}

/// A page with one row starting at `hour:minute`, holding the given cells.
fn page(hour: &str, minute: &str, cells: &[(Option<&str>, &str, Vec<(&str, &str)>)]) -> Document {
    let mut doc = Document::new();
    doc.open_node(NodeKind::Other);
    doc.open_node(element("table", &["timetable"], &[]));
    doc.open_node(element("tbody", &[], &[]));
    doc.open_node(element("tr", &[], &[]));
    doc.open_node(element("th", &["cabeceraHora"], &[]));
    text(&mut doc, hour);
    doc.open_node(element("sup", &[], &[]));
    text(&mut doc, minute);
    doc.close();
    doc.close();
    doc.open_node(element("td", &[], &[]));
    doc.close();
    for (rowspan, course, sessions) in cells {
        cell(&mut doc, *rowspan, course, sessions);
    }
    doc.close();
    doc.close();
    doc.close();
    doc.close();
    doc
}

fn id() -> TimetableId {
    TimetableId::new(2022, 433, 2, 4, 121, 1, UC3M_TIMEZONE)
}

fn stamp() -> ZonedDateTime {
    ZonedDateTime::from_utc(UC3M_TIMEZONE, CivilDateTime::new(2022, 8, 19, 19, 52, 3)).unwrap()
}

fn render(doc: &Document) -> Result<String, ParseError> {
    Timetable::parse(id(), doc, stamp()).map(|t| t.calendar().to_string())
}

const HEAD: &str = "BEGIN:VCALENDAR\r\nPRODID:uc3m-timetable.hugmanrique.me\r\nVERSION:2.0\r\n";
const DTSTAMP: &str = "DTSTAMP;TZID=\"/Europe/Madrid\":20220819T215203\r\n";

#[test]
fn single_session_page() {
    let doc = page("19", "52", &[(Some("1"), "Algebra", vec![("12.sep:", "Room 1")])]);
    let expected = format!(
        "{HEAD}BEGIN:VEVENT\r\n{DTSTAMP}UID:Algebra-12.sep@uc3m-timetable.hugmanrique.me\r\nDTSTART;TZID=\"/Europe/Madrid\":20220912T195200\r\nSUMMARY:Algebra\r\nLOCATION:Room 1\r\nDURATION:PT900S\r\nEND:VEVENT\r\nEND:VCALENDAR\r\n"
    );
    assert_eq!(render(&doc).unwrap(), expected);
    assert!(!render(&doc).unwrap().contains("RRULE"));
}

#[test]
fn multi_week_session_recurs_weekly_until_last_date() {
    let doc = page("19", "52", &[(Some("4"), "Algebra", vec![("12.sep-19.sep", "Room 1")])]);
    let expected = format!(
        "{HEAD}BEGIN:VEVENT\r\n{DTSTAMP}UID:Algebra-12.sep-19.sep@uc3m-timetable.hugmanrique.me\r\nDTSTART;TZID=\"/Europe/Madrid\":20220912T195200\r\nSUMMARY:Algebra\r\nLOCATION:Room 1\r\nDURATION:PT3600S\r\nRRULE:FREQ=WEEKLY;UNTIL=20220919T175200\r\nEND:VEVENT\r\nEND:VCALENDAR\r\n"
    );
    assert_eq!(render(&doc).unwrap(), expected);
}

#[test]
fn events_follow_cell_then_session_order() {
    let doc = page(
        "9",
        "00",
        &[
            (None, "B", vec![("3.oct", "R2"), ("1.oct", "R1")]),
            (Some("2"), "A", vec![("2.oct", "R3")]),
        ],
    );
    let out = render(&doc).unwrap();
    let b3 = out.find("UID:B-3.oct").unwrap();
    let b1 = out.find("UID:B-1.oct").unwrap();
    let a2 = out.find("UID:A-2.oct").unwrap();
    assert!(b3 < b1 && b1 < a2);
    assert!(out.contains("DURATION:PT1800S"));
}

#[test]
fn page_errors() {
    let mut empty = Document::new();
    empty.open_node(NodeKind::Other);
    empty.close();
    assert_eq!(render(&empty), Err(ParseError::MissingTbodyElem));

    let one = |range: &str| page("10", "30", &[(None, "C", vec![(range, "R")])]);
    assert_eq!(render(&one("12sep")), Err(ParseError::InvalidDateFormat));
    assert_eq!(render(&one("x.sep")), Err(ParseError::InvalidDay));
    assert_eq!(render(&one("12.foo")), Err(ParseError::InvalidMonth));
    assert_eq!(render(&one("31.feb")), Err(ParseError::InvalidStartDate));
    assert_eq!(render(&one("1.feb-31.feb")), Err(ParseError::InvalidEndDate));

    assert_eq!(
        render(&page("1O", "30", &[(None, "C", vec![("1.oct", "R")])])),
        Err(ParseError::NonNumericTimeValue)
    );
    assert_eq!(
        render(&page("24", "30", &[(None, "C", vec![("1.oct", "R")])])),
        Err(ParseError::InvalidTimeValue)
    );
    assert_eq!(
        render(&page("10", "30", &[(Some("two"), "C", vec![("1.oct", "R")])])),
        Err(ParseError::InvalidRowSpan)
    );
    assert_eq!(
        render(&page("10", "30", &[(Some("0"), "C", vec![("1.oct", "R")])])),
        Err(ParseError::InvalidRowSpan)
    );
    assert_eq!(render(&page("10", "30", &[])), Err(ParseError::EmptyTimetable));
}

#[test]
fn first_error_wins_over_later_cells() {
    let doc = page(
        "10",
        "30",
        &[
            (None, "A", vec![("1.oct", "R"), ("bad", "R")]),
            (Some("x"), "B", vec![("1.oct", "R")]),
        ],
    );
    assert_eq!(render(&doc), Err(ParseError::InvalidDateFormat));
}

#[test]
fn irregular_session_list_is_refused() {
    let mut doc = Document::new();
    doc.open_node(element("table", &["timetable"], &[]));
    doc.open_node(element("tbody", &[], &[]));
    doc.open_node(element("tr", &[], &[]));
    doc.open_node(element("th", &["cabeceraHora"], &[]));
    text(&mut doc, "10");
    doc.open_node(element("sup", &[], &[]));
    text(&mut doc, "00");
    doc.close();
    doc.close();
    doc.open_node(element("td", &["celdaConSesion"], &[]));
    doc.open_node(element("div", &["asignaturaGrupo"], &[]));
    text(&mut doc, "C");
    doc.open_node(element("div", &["fechasSesion"], &[]));
    doc.open_node(element("span", &[], &[]));
    text(&mut doc, "1.oct");
    doc.close();
    doc.open_node(element("span", &[], &[]));
    text(&mut doc, "R");
    doc.close();
    for _ in 0..6 {
        doc.close();
    }
    let parser = Parser::new(&id(), &doc, &stamp());
    assert_eq!(parser.parse().err(), Some(ParseError::IrregularSessionList));
}

#[test]
fn error_messages() {
    assert_eq!(ParseError::InvalidMonth.message(), "invalid month value");
    assert_eq!(
        ParseError::MissingTbodyElem.message(),
        "cannot find the time table `tbody` element"
    );
    assert_eq!(
        TimetableUrlParseError::MissingQueryParam("plan").message(),
        "missing query param `plan`"
    );
    assert_eq!(
        TimetableUrlParseError::IncorrectDomain.message(),
        "incorrect timetable domain"
    );
}

#[test]
fn single_row_single_day_page() {
    let doc = page("19", "52", &[(Some("1"), "Algebra", vec![("12.sep", "Room 1")])]);
    let calendar = Parser::new(&id(), &doc, &stamp()).parse().unwrap();
    assert_eq!(calendar.components().len(), 1);
    let event = &calendar.components()[0];
    assert_eq!(
        event.first_prop("DTSTART").unwrap().to_string(),
        "DTSTART;TZID=\"/Europe/Madrid\":20220912T195200\r\n"
    );
    assert!(!event.has_prop("RRULE"));
    assert_eq!(event.first_prop("DURATION").unwrap().value(), "PT900S");
}
