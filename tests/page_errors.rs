use uc3m_timetable::dom::{Document, NodeKind};
use uc3m_timetable::parse::{ParseError, Parser};
use uc3m_timetable::time::{CivilDateTime, ZonedDateTime};
use uc3m_timetable::{TimetableId, UC3M_TIMEZONE};

/// A node of a page under construction.
enum T {
    /// An element: name, classes, attributes, children.
    E(&'static str, Vec<&'static str>, Vec<(&'static str, &'static str)>, Vec<T>),
    /// A text node.
    X(&'static str),
    /// A comment.
    C,
}

fn el(name: &'static str, classes: Vec<&'static str>, children: Vec<T>) -> T {
    T::E(name, classes, Vec::new(), children)
}

fn build(doc: &mut Document, t: &T) {
    match t {
        T::E(name, classes, attrs, children) => {
            doc.open_node(NodeKind::Element {
                name: name.to_string(),
                classes: classes.iter().map(|c| c.to_string()).collect(),
                attrs: attrs.iter().map(|(k, v)| (k.to_string(), v.to_string())).collect(),
            });
            for c in children {
                build(doc, c);
            }
            doc.close();
        }
        T::X(s) => doc.push_leaf(NodeKind::Text(s.to_string())),
        T::C => doc.push_leaf(NodeKind::Other),
    }
}

/// A page whose one row holds `header` and then `cell`.
fn row_page(header: T, cell: T) -> Document {
    let page = el(
        "table",
        vec!["timetable"],
        vec![el("tbody", vec![], vec![el("tr", vec![], vec![header, cell])])],
    );
    let mut doc = Document::new();
    build(&mut doc, &page);
    doc
}

fn header() -> T {
    el("th", vec!["cabeceraHora"], vec![T::X("10"), el("sup", vec![], vec![T::X("30")])])
}

fn session_cell(group: Vec<T>) -> T {
    el("td", vec!["celdaConSesion"], vec![el("div", vec!["asignaturaGrupo"], group)])
}

fn sessions(nodes: Vec<T>) -> T {
    el("div", vec!["fechasSesion"], nodes)
}

fn parse(doc: &Document) -> Option<ParseError> {
    let id = TimetableId::new(2022, 433, 2, 4, 121, 1, UC3M_TIMEZONE);
    let stamp = ZonedDateTime::from_utc(UC3M_TIMEZONE, CivilDateTime::new(2022, 8, 19, 19, 52, 3)).unwrap();
    Parser::new(&id, doc, &stamp).parse().err()
}

fn ok_sessions() -> T {
    sessions(vec![
        el("span", vec![], vec![T::X("1.oct")]),
        el("span", vec![], vec![T::X("R")]),
        el("br", vec![], vec![]),
    ])
}

#[test]
fn time_header_errors() {
    let cell = || session_cell(vec![T::X("C"), ok_sessions()]);
    assert_eq!(parse(&row_page(el("th", vec![], vec![]), cell())), Some(ParseError::MissingRowTimeCell));
    assert_eq!(
        parse(&row_page(el("th", vec!["cabeceraHora"], vec![]), cell())),
        Some(ParseError::ChildlessTimeElement)
    );
    assert_eq!(
        parse(&row_page(el("th", vec!["cabeceraHora"], vec![T::C, el("sup", vec![], vec![T::X("30")])]), cell())),
        Some(ParseError::NonTextualTimeNode)
    );
    assert_eq!(
        parse(&row_page(el("th", vec!["cabeceraHora"], vec![T::X("10"), T::X("30")]), cell())),
        Some(ParseError::NonElementMinutesNode)
    );
    assert_eq!(
        parse(&row_page(el("th", vec!["cabeceraHora"], vec![T::X("10"), el("sup", vec![], vec![])]), cell())),
        Some(ParseError::ChildlessTimeElement)
    );
    assert_eq!(
        parse(&row_page(el("th", vec!["cabeceraHora"], vec![T::X("10"), el("sup", vec![], vec![T::X("61")])]), cell())),
        Some(ParseError::InvalidTimeValue)
    );
}

#[test]
fn cell_errors() {
    assert_eq!(
        parse(&row_page(header(), el("td", vec!["celdaConSesion"], vec![]))),
        Some(ParseError::MissingGroupElem)
    );
    assert_eq!(parse(&row_page(header(), session_cell(vec![]))), Some(ParseError::ChildlessGroupElem));
    assert_eq!(
        parse(&row_page(header(), session_cell(vec![T::C, ok_sessions()]))),
        Some(ParseError::NonTextualGroupChild)
    );
    assert_eq!(
        parse(&row_page(header(), session_cell(vec![T::X("C")]))),
        Some(ParseError::MissingSessionsElem)
    );
    // A cell without the session marker is not read at all.
    assert_eq!(
        parse(&row_page(header(), el("td", vec!["celdaSinSesion"], vec![]))),
        Some(ParseError::EmptyTimetable)
    );
}

#[test]
fn session_errors() {
    let with = |nodes: Vec<T>| row_page(header(), session_cell(vec![T::X("C"), sessions(nodes)]));
    assert_eq!(
        parse(&with(vec![T::X("1.oct"), el("span", vec![], vec![T::X("R")]), T::C])),
        Some(ParseError::NonElementSessionDateNode)
    );
    assert_eq!(
        parse(&with(vec![el("span", vec![], vec![T::X("1.oct")]), T::X("R"), T::C])),
        Some(ParseError::NonElementSessionLocationNode)
    );
    assert_eq!(
        parse(&with(vec![el("span", vec![], vec![]), el("span", vec![], vec![T::X("R")]), T::C])),
        Some(ParseError::MissingDateRange)
    );
    assert_eq!(
        parse(&with(vec![el("span", vec![], vec![T::C]), el("span", vec![], vec![T::X("R")]), T::C])),
        Some(ParseError::NonTextualDateRange)
    );
    assert_eq!(
        parse(&with(vec![el("span", vec![], vec![T::X("1.oct")]), el("span", vec![], vec![]), T::C])),
        Some(ParseError::MissingLocationSpan)
    );
    assert_eq!(
        parse(&with(vec![el("span", vec![], vec![T::X("1.oct")]), el("span", vec![], vec![T::C]), T::C])),
        Some(ParseError::NonTextualLocationSpan)
    );
    assert_eq!(
        parse(&with(vec![el("span", vec![], vec![T::X("1.oct")]), el("span", vec![], vec![T::X("R")])])),
        Some(ParseError::IrregularSessionList)
    );
    assert_eq!(parse(&with(vec![])), Some(ParseError::EmptyTimetable));
}

#[test]
fn trailing_colons_are_dropped_from_date_ranges() {
    let doc = row_page(
        header(),
        session_cell(vec![
            T::X("C"),
            sessions(vec![
                el("span", vec![], vec![T::X("1.oct::")]),
                el("span", vec![], vec![T::X("R")]),
                el("br", vec![], vec![]),
            ]),
        ]),
    );
    let id = TimetableId::new(2022, 433, 2, 4, 121, 1, UC3M_TIMEZONE);
    let stamp = ZonedDateTime::from_utc(UC3M_TIMEZONE, CivilDateTime::new(2022, 8, 19, 19, 52, 3)).unwrap();
    let text = Parser::new(&id, &doc, &stamp).parse().unwrap().to_string();
    assert!(text.contains("UID:C-1.oct@uc3m-timetable.hugmanrique.me\r\n"));
    assert!(text.contains("DTSTART;TZID=\"/Europe/Madrid\":20221001T103000\r\n"));
}

#[test]
fn document_children_follow_document_order() {
    let mut doc = Document::new();
    build(&mut doc, &el("a", vec![], vec![T::X("x"), el("b", vec![], vec![T::X("y")]), T::C]));
    assert_eq!(doc.len(), 5);
    assert_eq!(doc.children(0), vec![1, 2, 4]);
    assert_eq!(doc.first_child(0), Some(1));
    assert_eq!(doc.last_child(0), Some(4));
    assert_eq!(doc.end(2), 4);
    assert_eq!(doc.parent(3), Some(2));
    assert_eq!(doc.text_of(3), Some(vec!['y']));
    assert!(doc.is_named(2, "b"));
}
