//! Reads a timetable page into calendar events.
//!
//! The page holds one table body whose rows each start with a time header
//! (hour, then minutes in a nested element) followed by cells. A cell marked
//! as holding sessions spans a number of rows, a quarter of an hour each,
//! and lists its sessions as (date range, location, separator) node triples.
//! Every session becomes one event, weekly recurring when its date range
//! spans more than one day. Events come in row order, then cell order, then
//! session order.
use crate::dom::{
    attr_of, children, first_child, first_child_named, first_with_class, has_class, is_element,
    last_child, text_of, DocView, Document,
};
use crate::ical::components::{
    event_component, recurrence_text, Event, EventView, Recurrence, RecurrenceView, TimeUnit,
};
use crate::ical::{calendar_props, date_time_text, Calendar, CalendarView, Component, ComponentView};
use crate::text::{
    chars_eq_str, parse_signed, parse_unsigned, push_chars, push_str, signed_text,
    split_chars_once, split_once, string_of, trim_colons, trim_end_colons, unsigned_text,
};
use crate::time::{civil_valid, utc_of_local, CivilDateTime, Duration, ZonedDateTime};
use crate::util::{first_error, lemma_ok_prefix_items, ok_prefix, process};
use crate::TimetableId;
use vstd::prelude::*;

verus! {

/// The product that makes the calendars, also the domain of event ids.
pub const PRODUCT_NAME: &'static str = "uc3m-timetable.hugmanrique.me";

/// The iCalendar version the calendars need.
pub const SPEC_VERSION: &'static str = "2.0";

/// How long one row of the timetable lasts, in seconds.
pub const SLOT_SECONDS: i64 = 900;

/// What can be wrong with a timetable page.
#[derive(Debug, Clone, Copy, PartialEq, Eq, Structural)]
pub enum ParseError {
    MissingTbodyElem,
    MissingRowTimeCell,
    ChildlessTimeElement,
    NonTextualTimeNode,
    NonElementMinutesNode,
    NonNumericTimeValue,
    InvalidTimeValue,
    InvalidRowSpan,
    MissingGroupElem,
    ChildlessGroupElem,
    NonTextualGroupChild,
    MissingSessionsElem,
    IrregularSessionList,
    NonElementSessionDateNode,
    NonElementSessionLocationNode,
    MissingDateRange,
    NonTextualDateRange,
    MissingLocationSpan,
    NonTextualLocationSpan,
    InvalidStartDate,
    InvalidEndDate,
    InvalidDateFormat,
    InvalidDay,
    InvalidMonth,
    EmptyTimetable,
}

/// What each error says.
pub open spec fn parse_error_text(e: ParseError) -> Seq<char> {
    match e {
        ParseError::MissingTbodyElem => "cannot find the time table `tbody` element"@,
        ParseError::MissingRowTimeCell => "cannot find the `hh:mm` cell of the time table row"@,
        ParseError::ChildlessTimeElement => "time element has no children"@,
        ParseError::NonTextualTimeNode => "first child of the time element is not a textual node"@,
        ParseError::NonElementMinutesNode => "last child of the time cell is not an element"@,
        ParseError::NonNumericTimeValue => "time cell has a non-numeric time value"@,
        ParseError::InvalidTimeValue => "time cell holds no valid time of day"@,
        ParseError::InvalidRowSpan => "element has an invalid `rowspan` attribute value"@,
        ParseError::MissingGroupElem => "cannot find the subject group element of cell element"@,
        ParseError::ChildlessGroupElem => "cell group element has no children"@,
        ParseError::NonTextualGroupChild => "first child of the subject group element is not a textual node"@,
        ParseError::MissingSessionsElem => "cannot find the sessions element of subject group element"@,
        ParseError::IrregularSessionList => "sessions element does not hold whole session triples"@,
        ParseError::NonElementSessionDateNode => "session date node is not an element"@,
        ParseError::NonElementSessionLocationNode => "session location node is not an element"@,
        ParseError::MissingDateRange => "session within a cell is missing date range"@,
        ParseError::NonTextualDateRange => "first child of date range element is not a textual node"@,
        ParseError::MissingLocationSpan => "cannot find the location span of session"@,
        ParseError::NonTextualLocationSpan => "location span of a session is not a textual node"@,
        ParseError::InvalidStartDate => "start date of session is invalid"@,
        ParseError::InvalidEndDate => "end date of session is invalid"@,
        ParseError::InvalidDateFormat => "formatted date does not follow the `dd.month` format"@,
        ParseError::InvalidDay => "invalid day value"@,
        ParseError::InvalidMonth => "invalid month value"@,
        ParseError::EmptyTimetable => "the time table has no sessions"@,
    }
}

impl ParseError {
    /// A description of the error.
    pub fn message(&self) -> (r: &'static str)
        ensures
            r@ == parse_error_text(*self),
    {
        match *self {
            ParseError::MissingTbodyElem => "cannot find the time table `tbody` element",
            ParseError::MissingRowTimeCell => "cannot find the `hh:mm` cell of the time table row",
            ParseError::ChildlessTimeElement => "time element has no children",
            ParseError::NonTextualTimeNode => "first child of the time element is not a textual node",
            ParseError::NonElementMinutesNode => "last child of the time cell is not an element",
            ParseError::NonNumericTimeValue => "time cell has a non-numeric time value",
            ParseError::InvalidTimeValue => "time cell holds no valid time of day",
            ParseError::InvalidRowSpan => "element has an invalid `rowspan` attribute value",
            ParseError::MissingGroupElem => "cannot find the subject group element of cell element",
            ParseError::ChildlessGroupElem => "cell group element has no children",
            ParseError::NonTextualGroupChild => "first child of the subject group element is not a textual node",
            ParseError::MissingSessionsElem => "cannot find the sessions element of subject group element",
            ParseError::IrregularSessionList => "sessions element does not hold whole session triples",
            ParseError::NonElementSessionDateNode => "session date node is not an element",
            ParseError::NonElementSessionLocationNode => "session location node is not an element",
            ParseError::MissingDateRange => "session within a cell is missing date range",
            ParseError::NonTextualDateRange => "first child of date range element is not a textual node",
            ParseError::MissingLocationSpan => "cannot find the location span of session",
            ParseError::NonTextualLocationSpan => "location span of a session is not a textual node",
            ParseError::InvalidStartDate => "start date of session is invalid",
            ParseError::InvalidEndDate => "end date of session is invalid",
            ParseError::InvalidDateFormat => "formatted date does not follow the `dd.month` format",
            ParseError::InvalidDay => "invalid day value",
            ParseError::InvalidMonth => "invalid month value",
            ParseError::EmptyTimetable => "the time table has no sessions",
        }
    }
}

// ---------------------------------------------------------------------------
// What a page reads as.

/// The number in the text node that is the first child of `e`.
pub open spec fn time_value(d: DocView, e: int) -> Result<int, ParseError> {
    match first_child(d, e) {
        None => Err(ParseError::ChildlessTimeElement),
        Some(c) => match text_of(d, c) {
            None => Err(ParseError::NonTextualTimeNode),
            Some(t) => match unsigned_text(t) {
                Some(n) if n <= u32::MAX => Ok(n),
                _ => Err(ParseError::NonNumericTimeValue),
            },
        },
    }
}

/// The hour and minute a row starts at: the row's first `cabeceraHora`
/// element holds the hour as its first child and, as its last child, an
/// element holding the minutes.
pub open spec fn row_time(d: DocView, row: int) -> Result<(int, int), ParseError> {
    match first_with_class(d, row + 1, d.ends[row] as int, "cabeceraHora"@) {
        None => Err(ParseError::MissingRowTimeCell),
        Some(t) => match time_value(d, t) {
            Err(e) => Err(e),
            Ok(h) => {
                let m = last_child(d, t)->0;
                if !is_element(d, m) {
                    Err(ParseError::NonElementMinutesNode)
                } else {
                    match time_value(d, m) {
                        Err(e) => Err(e),
                        Ok(mi) => if h < 24 && mi < 60 {
                            Ok((h, mi))
                        } else {
                            Err(ParseError::InvalidTimeValue)
                        },
                    }
                }
            },
        },
    }
}

/// A cell with sessions: how long its sessions last, and its group element.
#[derive(Clone, Copy)]
pub struct Cell {
    pub seconds: i64,
    pub group: usize,
}

/// The number of rows a cell spans: its `rowspan`, 1 when it has none.
pub open spec fn row_span(d: DocView, c: int) -> Result<int, ParseError> {
    match attr_of(d, c, "rowspan"@) {
        None => Ok(1),
        Some(v) => match signed_text(v) {
            Some(n) if 1 <= n <= i32::MAX => Ok(n),
            _ => Err(ParseError::InvalidRowSpan),
        },
    }
}

/// What cell `c` reads as.
pub open spec fn cell_info(d: DocView, c: int) -> Result<Cell, ParseError> {
    match row_span(d, c) {
        Err(e) => Err(e),
        Ok(n) => match first_with_class(d, c + 1, d.ends[c] as int, "asignaturaGrupo"@) {
            None => Err(ParseError::MissingGroupElem),
            Some(g) => Ok(Cell { seconds: (SLOT_SECONDS * n) as i64, group: g as usize }),
        },
    }
}

/// The number of a month from its Spanish three-letter abbreviation.
pub open spec fn month_number(s: Seq<char>) -> Option<int> {
    if s == "ene"@ { Some(1) }
    else if s == "feb"@ { Some(2) }
    else if s == "mar"@ { Some(3) }
    else if s == "abr"@ { Some(4) }
    else if s == "may"@ { Some(5) }
    else if s == "jun"@ { Some(6) }
    else if s == "jul"@ { Some(7) }
    else if s == "ago"@ { Some(8) }
    else if s == "sep"@ { Some(9) }
    else if s == "oct"@ { Some(10) }
    else if s == "nov"@ { Some(11) }
    else if s == "dic"@ { Some(12) }
    else { None }
}

/// The month and day a `day.month` text names.
pub open spec fn date_of(s: Seq<char>) -> Result<(int, int), ParseError> {
    match split_once(s, '.') {
        None => Err(ParseError::InvalidDateFormat),
        Some((day, month)) => match unsigned_text(day) {
            Some(n) if n <= u32::MAX => match month_number(month) {
                Some(m) => Ok((m, n)),
                None => Err(ParseError::InvalidMonth),
            },
            _ => Err(ParseError::InvalidDay),
        },
    }
}

/// The first and last dates of a range `start-end`, or of a single date.
pub open spec fn date_range(s: Seq<char>) -> Result<((int, int), (int, int)), ParseError> {
    match split_once(s, '-') {
        Some((a, b)) => match date_of(a) {
            Err(e) => Err(e),
            Ok(x) => match date_of(b) {
                Err(e) => Err(e),
                Ok(y) => Ok((x, y)),
            },
        },
        None => match date_of(s) {
            Err(e) => Err(e),
            Ok(x) => Ok((x, x)),
        },
    }
}

/// A date of `year` at a wall-clock time.
pub open spec fn civil_at(year: i32, date: (int, int), hour: int, minute: int) -> CivilDateTime {
    CivilDateTime {
        year,
        month: date.0 as u32,
        day: date.1 as u32,
        hour: hour as u32,
        minute: minute as u32,
        second: 0,
    }
}

/// The identifier of a session's event: `<course>-<date range>@<product>`.
pub open spec fn session_uid(course: Seq<char>, range: Seq<char>) -> Seq<char> {
    course + "-"@ + range + "@"@ + PRODUCT_NAME@
}

/// Where a session starts and how long it lasts, and what it is part of.
pub struct SessionFrame {
    pub id: TimetableId,
    pub stamp: ZonedDateTime,
    pub hour: int,
    pub minute: int,
    pub seconds: i64,
    pub course: Seq<char>,
}

/// The event of a session given by its date-range node and location node.
pub open spec fn session_event(d: DocView, f: SessionFrame, date: int, loc: int) -> Result<
    EventView,
    ParseError,
> {
    match first_child(d, date) {
        None => Err(ParseError::MissingDateRange),
        Some(dc) => match text_of(d, dc) {
            None => Err(ParseError::NonTextualDateRange),
            Some(t) => {
                let raw = trim_colons(t);
                match date_range(raw) {
                    Err(e) => Err(e),
                    Ok((sd, ed)) => match first_child(d, loc) {
                        None => Err(ParseError::MissingLocationSpan),
                        Some(lc) => match text_of(d, lc) {
                            None => Err(ParseError::NonTextualLocationSpan),
                            Some(location) => {
                                let sl = civil_at(f.id.year, sd, f.hour, f.minute);
                                if !civil_valid(sl) || utc_of_local(f.id.time_zone@, sl) is None {
                                    Err(ParseError::InvalidStartDate)
                                } else {
                                    let start = ZonedDateTime {
                                        zone: f.id.time_zone,
                                        local: sl,
                                        utc: utc_of_local(f.id.time_zone@, sl)->0,
                                    };
                                    let ev = EventView {
                                        uid: session_uid(f.course, raw),
                                        last_modified: f.stamp,
                                        start,
                                        created_on: None,
                                        summary: Some(f.course),
                                        description: None,
                                        location: Some(location),
                                        recurrence: None,
                                        end: None,
                                        duration: Some(Duration { seconds: f.seconds }),
                                    };
                                    if sd == ed {
                                        Ok(ev)
                                    } else {
                                        let el = civil_at(f.id.year, ed, f.hour, f.minute);
                                        if !civil_valid(el) || utc_of_local(f.id.time_zone@, el) is None {
                                            Err(ParseError::InvalidEndDate)
                                        } else {
                                            let until = ZonedDateTime {
                                                zone: f.id.time_zone,
                                                local: el,
                                                utc: utc_of_local(f.id.time_zone@, el)->0,
                                            };
                                            Ok(
                                                EventView {
                                                    recurrence: Some(
                                                        RecurrenceView {
                                                            frequency: TimeUnit::Week,
                                                            until: Some(until),
                                                            count: None,
                                                            interval: None,
                                                        },
                                                    ),
                                                    ..ev
                                                },
                                            )
                                        }
                                    }
                                }
                            },
                        },
                    },
                }
            },
        },
    }
}

/// The date-range text of a session's date node, without trailing colons.
pub open spec fn range_text(d: DocView, date: int) -> Option<Seq<char>> {
    match first_child(d, date) {
        Some(dc) => match text_of(d, dc) {
            Some(t) => Some(trim_colons(t)),
            None => None,
        },
        None => None,
    }
}

/// A session on a single day is one event; a session whose range spans
/// two dates recurs weekly until the last date at the row's start time,
/// and its rule reads `FREQ=WEEKLY;UNTIL=` and that instant in UTC.
pub proof fn lemma_session_recurrence(
    d: DocView,
    f: SessionFrame,
    date: int,
    loc: int,
    raw: Seq<char>,
    first: (int, int),
    last: (int, int),
)
    requires
        range_text(d, date) == Some(raw),
        date_range(raw) == Ok::<((int, int), (int, int)), ParseError>((first, last)),
        session_event(d, f, date, loc) is Ok,
    ensures
        ({
            let ev = session_event(d, f, date, loc)->Ok_0;
            &&& ev.uid == session_uid(f.course, raw)
            &&& ev.start.local == civil_at(f.id.year, first, f.hour, f.minute)
            &&& ev.duration == Some(Duration { seconds: f.seconds })
            &&& first == last ==> ev.recurrence is None
            &&& first != last ==> (ev.recurrence matches Some(r) && r.frequency == TimeUnit::Week
                && r.count is None && r.interval is None && (r.until matches Some(u) && u.local
                == civil_at(f.id.year, last, f.hour, f.minute) && recurrence_text(r) == "FREQ="@
                + "WEEKLY"@ + ";UNTIL="@ + date_time_text(u.utc)))
        }),
{
    let ev = session_event(d, f, date, loc)->Ok_0;
    if first != last {
        let r = ev.recurrence->0;
        let u = r.until->0;
        assert(recurrence_text(r) == "FREQ="@ + "WEEKLY"@ + ";UNTIL="@ + date_time_text(u.utc)
            + Seq::<char>::empty());
        assert("FREQ="@ + "WEEKLY"@ + ";UNTIL="@ + date_time_text(u.utc) + Seq::<char>::empty()
            == "FREQ="@ + "WEEKLY"@ + ";UNTIL="@ + date_time_text(u.utc));
    }
}

/// The event of the `k`-th session triple among `nodes`.
pub open spec fn triple_event(d: DocView, f: SessionFrame, nodes: Seq<int>, k: int) -> Result<
    EventView,
    ParseError,
> {
    let date = nodes[3 * k];
    let loc = nodes[3 * k + 1];
    if !is_element(d, date) {
        Err(ParseError::NonElementSessionDateNode)
    } else if !is_element(d, loc) {
        Err(ParseError::NonElementSessionLocationNode)
    } else {
        session_event(d, f, date, loc)
    }
}

/// The events of the complete session triples among `nodes`, in order.
pub open spec fn session_results(d: DocView, f: SessionFrame, nodes: Seq<int>) -> Seq<
    Result<EventView, ParseError>,
> {
    Seq::new(nodes.len() / 3, |k: int| triple_event(d, f, nodes, k))
}

/// The events of a cell's sessions, or the first thing wrong with them.
pub open spec fn cell_events(d: DocView, id: TimetableId, stamp: ZonedDateTime, hour: int, minute: int, cell: Cell) -> Result<Seq<EventView>, ParseError> {
    let g = cell.group as int;
    match first_child(d, g) {
        None => Err(ParseError::ChildlessGroupElem),
        Some(c) => match text_of(d, c) {
            None => Err(ParseError::NonTextualGroupChild),
            Some(course) => match first_with_class(d, g + 1, d.ends[g] as int, "fechasSesion"@) {
                None => Err(ParseError::MissingSessionsElem),
                Some(s) => {
                    let nodes = children(d, s);
                    let f = SessionFrame { id, stamp, hour, minute, seconds: cell.seconds, course };
                    let rs = session_results(d, f, nodes);
                    match first_error(rs) {
                        Err(e) => Err(e),
                        Ok(_) => if nodes.len() % 3 != 0 {
                            Err(ParseError::IrregularSessionList)
                        } else {
                            Ok(ok_prefix(rs))
                        },
                    }
                },
            },
        },
    }
}

/// A cell's course name and sessions element, if its group element has a
/// text first child and a `fechasSesion` descendant.
pub open spec fn cell_sessions(d: DocView, cell: Cell) -> Option<(Seq<char>, int)> {
    let g = cell.group as int;
    match first_child(d, g) {
        None => None,
        Some(c) => match text_of(d, c) {
            None => None,
            Some(course) => match first_with_class(d, g + 1, d.ends[g] as int, "fechasSesion"@) {
                None => None,
                Some(s) => Some((course, s)),
            },
        },
    }
}

/// The events a cell adds to the output whether or not it fails: those of
/// its sessions before the first failing one (all of them when none
/// fails), and none when its course or sessions element is missing.
pub open spec fn cell_pushed(d: DocView, id: TimetableId, stamp: ZonedDateTime, hour: int, minute: int, cell: Cell) -> Seq<EventView> {
    match cell_sessions(d, cell) {
        None => Seq::empty(),
        Some((course, s)) => {
            let f = SessionFrame { id, stamp, hour, minute, seconds: cell.seconds, course };
            ok_prefix(session_results(d, f, children(d, s)))
        },
    }
}

/// The events several cells add to the output: those of each cell up to
/// and including the first failing one, which adds its partial events.
pub open spec fn cells_pushed(d: DocView, id: TimetableId, stamp: ZonedDateTime, hour: int, minute: int, cells: Seq<Cell>) -> Seq<EventView>
    decreases cells.len(),
{
    if cells.len() == 0 {
        Seq::empty()
    } else if cells_events(d, id, stamp, hour, minute, cells.drop_last()) is Err {
        cells_pushed(d, id, stamp, hour, minute, cells.drop_last())
    } else {
        cells_pushed(d, id, stamp, hour, minute, cells.drop_last()) + cell_pushed(
            d,
            id,
            stamp,
            hour,
            minute,
            cells.last(),
        )
    }
}

/// The events a row adds to the output whether or not it fails: none when
/// its time header fails, else those its cells add in order (a failing
/// cell keeps what it added before failing).
pub open spec fn row_pushed(d: DocView, id: TimetableId, stamp: ZonedDateTime, row: int) -> Seq<EventView> {
    match row_time(d, row) {
        Err(_) => Seq::empty(),
        Ok((h, mi)) => cells_pushed(d, id, stamp, h, mi, ok_prefix(cell_results(d, row))),
    }
}

/// Joins two results: the first error, or both event lists.
pub open spec fn then_events(a: Result<Seq<EventView>, ParseError>, b: Result<Seq<EventView>, ParseError>) -> Result<Seq<EventView>, ParseError> {
    match a {
        Err(e) => Err(e),
        Ok(x) => match b {
            Err(e) => Err(e),
            Ok(y) => Ok(x + y),
        },
    }
}

/// The events of several cells, in order, or the first error.
pub open spec fn cells_events(d: DocView, id: TimetableId, stamp: ZonedDateTime, hour: int, minute: int, cells: Seq<Cell>) -> Result<Seq<EventView>, ParseError>
    decreases cells.len(),
{
    if cells.len() == 0 {
        Ok(Seq::empty())
    } else {
        then_events(
            cells_events(d, id, stamp, hour, minute, cells.drop_last()),
            cell_events(d, id, stamp, hour, minute, cells.last()),
        )
    }
}

/// The nodes of `s` that are elements with class `class`.
pub open spec fn with_class(d: DocView, s: Seq<int>, class: Seq<char>) -> Seq<int>
    decreases s.len(),
{
    if s.len() == 0 {
        Seq::empty()
    } else if has_class(d, s.last(), class) {
        with_class(d, s.drop_last(), class).push(s.last())
    } else {
        with_class(d, s.drop_last(), class)
    }
}

/// The nodes of `s` that are elements.
pub open spec fn elements(d: DocView, s: Seq<int>) -> Seq<int>
    decreases s.len(),
{
    if s.len() == 0 {
        Seq::empty()
    } else if is_element(d, s.last()) {
        elements(d, s.drop_last()).push(s.last())
    } else {
        elements(d, s.drop_last())
    }
}

/// What each cell with sessions of a row reads as.
pub open spec fn cell_results(d: DocView, row: int) -> Seq<Result<Cell, ParseError>> {
    let cs = with_class(d, children(d, row), "celdaConSesion"@);
    Seq::new(cs.len(), |k: int| cell_info(d, cs[k]))
}

/// The events of a row, or the first thing wrong with it.
pub open spec fn row_events(d: DocView, id: TimetableId, stamp: ZonedDateTime, row: int) -> Result<Seq<EventView>, ParseError> {
    match row_time(d, row) {
        Err(e) => Err(e),
        Ok((h, mi)) => {
            let rs = cell_results(d, row);
            match cells_events(d, id, stamp, h, mi, ok_prefix(rs)) {
                Err(e) => Err(e),
                Ok(evs) => match first_error(rs) {
                    Err(e) => Err(e),
                    Ok(_) => Ok(evs),
                },
            }
        },
    }
}

/// The events of several rows, in order, or the first error.
pub open spec fn rows_events(d: DocView, id: TimetableId, stamp: ZonedDateTime, rows: Seq<int>) -> Result<Seq<EventView>, ParseError>
    decreases rows.len(),
{
    if rows.len() == 0 {
        Ok(Seq::empty())
    } else {
        then_events(rows_events(d, id, stamp, rows.drop_last()), row_events(d, id, stamp, rows.last()))
    }
}

/// The events of a page, or the first thing wrong with it: the rows are the
/// element children of the first `tbody` under a `timetable` element.
pub open spec fn document_events(d: DocView, id: TimetableId, stamp: ZonedDateTime) -> Result<Seq<EventView>, ParseError> {
    match first_child_named(d, 0, d.kinds.len() as int, "timetable"@, "tbody"@) {
        None => Err(ParseError::MissingTbodyElem),
        Some(t) => rows_events(d, id, stamp, elements(d, children(d, t))),
    }
}

/// The components of events.
pub open spec fn components_of(evs: Seq<EventView>) -> Seq<ComponentView> {
    evs.map_values(|e: EventView| event_component(e))
}

/// The views of events.
pub open spec fn events_view(s: Seq<Event>) -> Seq<EventView> {
    s.map_values(|e: Event| e@)
}

/// The views of results of events.
pub open spec fn results_view(s: Seq<Result<Event, ParseError>>) -> Seq<Result<EventView, ParseError>> {
    s.map_values(|r: Result<Event, ParseError>| match r {
        Ok(e) => Ok(e@),
        Err(x) => Err(x),
    })
}

proof fn lemma_results_view(s: Seq<Result<Event, ParseError>>)
    ensures
        events_view(ok_prefix(s)) == ok_prefix(results_view(s)),
        first_error(s) == first_error(results_view(s)),
    decreases s.len(),
{
    if s.len() > 0 {
        lemma_results_view(s.drop_first());
        assert(results_view(s).drop_first() == results_view(s.drop_first()));
        match s[0] {
            Ok(e) => {
                assert(events_view(ok_prefix(s)) =~= seq![e@] + events_view(ok_prefix(s.drop_first())));
            },
            Err(_) => {
                assert(events_view(ok_prefix(s)) =~= Seq::<EventView>::empty());
            },
        }
    } else {
        assert(events_view(ok_prefix(s)) =~= Seq::<EventView>::empty());
    }
}

proof fn lemma_cells_events_err(d: DocView, id: TimetableId, stamp: ZonedDateTime, hour: int, minute: int, cells: Seq<Cell>, k: int)
    requires
        0 <= k <= cells.len(),
        cells_events(d, id, stamp, hour, minute, cells.take(k)) is Err,
    ensures
        cells_events(d, id, stamp, hour, minute, cells) == cells_events(d, id, stamp, hour, minute, cells.take(k)),
    decreases cells.len() - k,
{
    if k < cells.len() {
        assert(cells.drop_last().take(k) == cells.take(k));
        lemma_cells_events_err(d, id, stamp, hour, minute, cells.drop_last(), k);
    } else {
        assert(cells.take(k) == cells);
    }
}

proof fn lemma_cells_pushed_err(d: DocView, id: TimetableId, stamp: ZonedDateTime, hour: int, minute: int, cells: Seq<Cell>, k: int)
    requires
        0 <= k <= cells.len(),
        cells_events(d, id, stamp, hour, minute, cells.take(k)) is Err,
    ensures
        cells_pushed(d, id, stamp, hour, minute, cells) == cells_pushed(d, id, stamp, hour, minute, cells.take(k)),
    decreases cells.len() - k,
{
    if k < cells.len() {
        assert(cells.drop_last().take(k) == cells.take(k));
        lemma_cells_pushed_err(d, id, stamp, hour, minute, cells.drop_last(), k);
        lemma_cells_events_err(d, id, stamp, hour, minute, cells.drop_last(), k);
    } else {
        assert(cells.take(k) == cells);
    }
}

proof fn lemma_cells_pushed_ok(d: DocView, id: TimetableId, stamp: ZonedDateTime, hour: int, minute: int, cells: Seq<Cell>)
    requires
        cells_events(d, id, stamp, hour, minute, cells) is Ok,
    ensures
        cells_pushed(d, id, stamp, hour, minute, cells) == cells_events(d, id, stamp, hour, minute, cells)->Ok_0,
    decreases cells.len(),
{
    if cells.len() > 0 {
        lemma_cells_pushed_ok(d, id, stamp, hour, minute, cells.drop_last());
    }
}

proof fn lemma_rows_events_err(d: DocView, id: TimetableId, stamp: ZonedDateTime, rows: Seq<int>, k: int)
    requires
        0 <= k <= rows.len(),
        rows_events(d, id, stamp, rows.take(k)) is Err,
    ensures
        rows_events(d, id, stamp, rows) == rows_events(d, id, stamp, rows.take(k)),
    decreases rows.len() - k,
{
    if k < rows.len() {
        assert(rows.drop_last().take(k) == rows.take(k));
        lemma_rows_events_err(d, id, stamp, rows.drop_last(), k);
    } else {
        assert(rows.take(k) == rows);
    }
}

/// The number of a month from its abbreviation.
fn month_number_of(s: &Vec<char>) -> (r: Option<u32>)
    ensures
        match month_number(s@) {
            Some(m) => r == Some(m as u32),
            None => r is None,
        },
{
    if chars_eq_str(s, "ene") { Some(1) }
    else if chars_eq_str(s, "feb") { Some(2) }
    else if chars_eq_str(s, "mar") { Some(3) }
    else if chars_eq_str(s, "abr") { Some(4) }
    else if chars_eq_str(s, "may") { Some(5) }
    else if chars_eq_str(s, "jun") { Some(6) }
    else if chars_eq_str(s, "jul") { Some(7) }
    else if chars_eq_str(s, "ago") { Some(8) }
    else if chars_eq_str(s, "sep") { Some(9) }
    else if chars_eq_str(s, "oct") { Some(10) }
    else if chars_eq_str(s, "nov") { Some(11) }
    else if chars_eq_str(s, "dic") { Some(12) }
    else { None }
}

/// Reads a `day.month` date as its month and day.
fn parse_date(s: &Vec<char>) -> (r: Result<(u32, u32), ParseError>)
    ensures
        match r {
            Ok((m, day)) => date_of(s@) == Ok::<(int, int), ParseError>((m as int, day as int)),
            Err(e) => date_of(s@) == Err::<(int, int), ParseError>(e),
        },
{
    let (day, month) = match split_chars_once(s, '.') {
        Some(parts) => parts,
        None => return Err(ParseError::InvalidDateFormat),
    };
    let n = match parse_unsigned(&day, u32::MAX as u64) {
        Some(n) => n as u32,
        None => return Err(ParseError::InvalidDay),
    };
    match month_number_of(&month) {
        Some(m) => Ok((m, n)),
        None => Err(ParseError::InvalidMonth),
    }
}

/// Reads a date range `start-end`, or a single date, as its first and last
/// dates.
fn parse_date_range(s: &Vec<char>) -> (r: Result<((u32, u32), (u32, u32)), ParseError>)
    ensures
        match r {
            Ok((a, b)) => date_range(s@) == Ok::<((int, int), (int, int)), ParseError>(
                ((a.0 as int, a.1 as int), (b.0 as int, b.1 as int)),
            ),
            Err(e) => date_range(s@) == Err::<((int, int), (int, int)), ParseError>(e),
        },
{
    match split_chars_once(s, '-') {
        Some((a, b)) => {
            let x = match parse_date(&a) {
                Ok(x) => x,
                Err(e) => return Err(e),
            };
            let y = match parse_date(&b) {
                Ok(y) => y,
                Err(e) => return Err(e),
            };
            Ok((x, y))
        },
        None => {
            let x = match parse_date(s) {
                Ok(x) => x,
                Err(e) => return Err(e),
            };
            Ok((x, x))
        },
    }
}

/// Reads a page into a calendar.
pub struct Parser<'a> {
    time_table: TimetableId,
    input: &'a Document,
    created_on: ZonedDateTime,
}

impl<'a> Parser<'a> {
    /// The page being read.
    pub closed spec fn doc(&self) -> DocView {
        self.input@
    }

    /// The timetable being read.
    pub closed spec fn id(&self) -> TimetableId {
        self.time_table
    }

    /// When the calendar is made; each event's last modification.
    pub closed spec fn stamp(&self) -> ZonedDateTime {
        self.created_on
    }

    /// Whether the page is well formed.
    pub closed spec fn inv(&self) -> bool {
        self.input.inv()
    }

    /// Creates a parser for the page `input` of the timetable `time_table`,
    /// whose events are stamped with `created_on`.
    pub fn new(time_table: &TimetableId, input: &'a Document, created_on: &ZonedDateTime) -> (r: Self)
        requires
            input.inv(),
        ensures
            r.inv(),
            r.doc() == input@,
            r.id() == *time_table,
            r.stamp() == *created_on,
    {
        Parser { time_table: *time_table, input, created_on: *created_on }
    }

    fn time_value(&self, e: usize) -> (r: Result<u32, ParseError>)
        requires
            self.inv(),
            e < self.doc().kinds.len(),
        ensures
            match r {
                Ok(n) => time_value(self.doc(), e as int) == Ok::<int, ParseError>(n as int),
                Err(x) => time_value(self.doc(), e as int) == Err::<int, ParseError>(x),
            },
    {
        let c = match self.input.first_child(e) {
            Some(c) => c,
            None => return Err(ParseError::ChildlessTimeElement),
        };
        let t = match self.input.text_of(c) {
            Some(t) => t,
            None => return Err(ParseError::NonTextualTimeNode),
        };
        match parse_unsigned(&t, u32::MAX as u64) {
            Some(n) => Ok(n as u32),
            None => Err(ParseError::NonNumericTimeValue),
        }
    }

    fn row_time(&self, row: usize) -> (r: Result<(u32, u32), ParseError>)
        requires
            self.inv(),
            row < self.doc().kinds.len(),
        ensures
            match r {
                Ok((h, m)) => row_time(self.doc(), row as int) == Ok::<(int, int), ParseError>(
                    (h as int, m as int),
                ),
                Err(x) => row_time(self.doc(), row as int) == Err::<(int, int), ParseError>(x),
            },
    {
        let end = self.input.end(row);
        let t = match self.input.first_with_class(row + 1, end, "cabeceraHora") {
            Some(t) => t,
            None => return Err(ParseError::MissingRowTimeCell),
        };
        let h = match self.time_value(t) {
            Ok(h) => h,
            Err(e) => return Err(e),
        };
        let m = match self.input.last_child(t) {
            Some(m) => m,
            None => return Err(ParseError::ChildlessTimeElement),
        };
        if !self.input.is_element(m) {
            return Err(ParseError::NonElementMinutesNode);
        }
        let mi = match self.time_value(m) {
            Ok(mi) => mi,
            Err(e) => return Err(e),
        };
        if h < 24 && mi < 60 {
            Ok((h, mi))
        } else {
            Err(ParseError::InvalidTimeValue)
        }
    }

    fn cell_info(&self, c: usize) -> (r: Result<Cell, ParseError>)
        requires
            self.inv(),
            c < self.doc().kinds.len(),
        ensures
            r == cell_info(self.doc(), c as int),
            r matches Ok(cell) ==> cell.group < self.doc().kinds.len() && cell.seconds > 0,
    {
        let span: i64 = match self.input.attr_of(c, "rowspan") {
            None => 1,
            Some(v) => match parse_signed(&v, i32::MIN as i64, i32::MAX as i64) {
                Some(n) => {
                    if n < 1 {
                        return Err(ParseError::InvalidRowSpan);
                    }
                    n
                },
                None => return Err(ParseError::InvalidRowSpan),
            },
        };
        let end = self.input.end(c);
        match self.input.first_with_class(c + 1, end, "asignaturaGrupo") {
            Some(g) => Ok(Cell { seconds: SLOT_SECONDS * span, group: g }),
            None => Err(ParseError::MissingGroupElem),
        }
    }

    fn session_event(
        &self,
        hour: u32,
        minute: u32,
        seconds: i64,
        course: &Vec<char>,
        date: usize,
        loc: usize,
    ) -> (r: Result<Event, ParseError>)
        requires
            self.inv(),
            date < self.doc().kinds.len(),
            loc < self.doc().kinds.len(),
            hour < 24,
            minute < 60,
            seconds > 0,
        ensures
            ({
                let f = SessionFrame {
                    id: self.id(),
                    stamp: self.stamp(),
                    hour: hour as int,
                    minute: minute as int,
                    seconds,
                    course: course@,
                };
                match r {
                    Ok(e) => session_event(self.doc(), f, date as int, loc as int) == Ok::<
                        EventView,
                        ParseError,
                    >(e@),
                    Err(x) => session_event(self.doc(), f, date as int, loc as int) == Err::<
                        EventView,
                        ParseError,
                    >(x),
                }
            }),
    {
        let dc = match self.input.first_child(date) {
            Some(dc) => dc,
            None => return Err(ParseError::MissingDateRange),
        };
        let t = match self.input.text_of(dc) {
            Some(t) => t,
            None => return Err(ParseError::NonTextualDateRange),
        };
        let raw = trim_end_colons(&t);
        let (sd, ed) = match parse_date_range(&raw) {
            Ok(r) => r,
            Err(e) => return Err(e),
        };
        let lc = match self.input.first_child(loc) {
            Some(lc) => lc,
            None => return Err(ParseError::MissingLocationSpan),
        };
        let location = match self.input.text_of(lc) {
            Some(l) => l,
            None => return Err(ParseError::NonTextualLocationSpan),
        };
        let zone = self.time_table.time_zone;
        let sl = CivilDateTime::new(self.time_table.year, sd.0, sd.1, hour, minute, 0);
        let start = match ZonedDateTime::from_local(zone, sl) {
            Some(z) => z,
            None => return Err(ParseError::InvalidStartDate),
        };
        let mut uid: Vec<char> = Vec::new();
        push_chars(&mut uid, course);
        uid.push('-');
        push_chars(&mut uid, &raw);
        uid.push('@');
        push_str(&mut uid, PRODUCT_NAME);
        proof {
            reveal_strlit("-");
            reveal_strlit("@");
        }
        assert(uid@ == session_uid(course@, raw@));
        let event = Event::new(string_of(&uid).as_str(), self.created_on, start)
            .summary(string_of(course).as_str())
            .location(string_of(&location).as_str())
            .duration(Duration { seconds });
        if sd.0 == ed.0 && sd.1 == ed.1 {
            Ok(event)
        } else {
            let el = CivilDateTime::new(self.time_table.year, ed.0, ed.1, hour, minute, 0);
            let until = match ZonedDateTime::from_local(zone, el) {
                Some(z) => z,
                None => return Err(ParseError::InvalidEndDate),
            };
            Ok(event.recurrence(Recurrence::until(TimeUnit::Week, until)))
        }
    }

    /// Reads the page as a calendar: one event per session, in row, cell
    /// and session order, under the product name and iCalendar 2.0. The
    /// first thing wrong with the page is the error; a page without
    /// sessions is an error too, as a calendar needs a component.
    pub fn parse(&self) -> (r: Result<Calendar, ParseError>)
        requires
            self.inv(),
        ensures
            match document_events(self.doc(), self.id(), self.stamp()) {
                Err(e) => r == Err::<Calendar, ParseError>(e),
                Ok(evs) => if evs.len() == 0 {
                    r == Err::<Calendar, ParseError>(ParseError::EmptyTimetable)
                } else {
                    r matches Ok(c) && c@ == (CalendarView {
                        props: calendar_props(PRODUCT_NAME@, SPEC_VERSION@),
                        components: components_of(evs),
                    })
                },
            },
    {
        let ghost d = self.doc();
        let n = self.input.len();
        let t = match self.input.first_child_named(0, n, "timetable", "tbody") {
            Some(t) => t,
            None => return Err(ParseError::MissingTbodyElem),
        };
        let kids = self.input.children(t);
        let ghost kv = kids@.map_values(|j: usize| j as int);
        let mut rows: Vec<usize> = Vec::new();
        let mut i: usize = 0;
        while i < kids.len()
            invariant
                i <= kids.len(),
                self.inv(),
                d == self.doc(),
                kv == kids@.map_values(|j: usize| j as int),
                forall|k: int| 0 <= k < kids@.len() ==> #[trigger] kids@[k] < d.kinds.len(),
                forall|k: int| 0 <= k < rows@.len() ==> #[trigger] rows@[k] < d.kinds.len(),
                rows@.map_values(|j: usize| j as int) == elements(d, kv.take(i as int)),
            decreases kids.len() - i,
        {
            assert(kv.take(i + 1).drop_last() == kv.take(i as int));
            assert(kv.take(i + 1).last() == kids@[i as int] as int);
            if self.input.is_element(kids[i]) {
                rows.push(kids[i]);
            }
            i = i + 1;
            assert(rows@.map_values(|j: usize| j as int) =~= elements(d, kv.take(i as int)));
        }
        assert(kv.take(i as int) == kv);
        let ghost rv = rows@.map_values(|j: usize| j as int);
        let mut events: Vec<Event> = Vec::new();
        let mut k: usize = 0;
        assert(rv.take(0) =~= Seq::<int>::empty());
        assert(events_view(events@) =~= Seq::<EventView>::empty());
        while k < rows.len()
            invariant
                k <= rows.len(),
                self.inv(),
                d == self.doc(),
                rv == rows@.map_values(|j: usize| j as int),
                rv == elements(d, children(d, t as int)),
                document_events(d, self.id(), self.stamp()) == rows_events(d, self.id(), self.stamp(), rv),
                forall|x: int| 0 <= x < rows@.len() ==> #[trigger] rows@[x] < d.kinds.len(),
                rows_events(d, self.id(), self.stamp(), rv.take(k as int)) == Ok::<Seq<EventView>, ParseError>(events_view(events@)),
            decreases rows.len() - k,
        {
            let row = rows[k];
            let ghost tk = rv.take(k + 1);
            assert(tk.drop_last() == rv.take(k as int));
            assert(tk.last() == row as int);
            match self.parse_row(row, &mut events) {
                Ok(()) => {},
                Err(e) => {
                    proof {
                        assert(rows_events(d, self.id(), self.stamp(), tk) == then_events(
                            rows_events(d, self.id(), self.stamp(), tk.drop_last()),
                            row_events(d, self.id(), self.stamp(), tk.last()),
                        ));
                        lemma_rows_events_err(d, self.id(), self.stamp(), rv, k + 1);
                    }
                    return Err(e);
                },
            }
            k = k + 1;
        }
        assert(rv.take(k as int) == rv);
        let ghost evs = events_view(events@);
        if events.len() == 0 {
            return Err(ParseError::EmptyTimetable);
        }
        let mut comps: Vec<Component> = Vec::new();
        let mut rest = events;
        let ghost total = rest@.len();
        while rest.len() > 0
            invariant
                rest@.len() <= total,
                total == evs.len(),
                events_view(rest@) == evs.skip(total - rest@.len()),
                comps@.map_values(|c: Component| c@) == components_of(evs.take(total - rest@.len())),
            decreases rest@.len(),
        {
            let ghost before = rest@;
            let ghost done = total - rest@.len();
            let e = rest.remove(0);
            assert(e == before[0]);
            assert(events_view(before)[0] == before[0]@);
            assert(evs.skip(done)[0] == evs[done]);
            assert(e@ == evs[done]);
            assert(rest@ =~= before.subrange(1, before.len() as int));
            assert(events_view(rest@) =~= evs.skip(done + 1)) by {
                assert forall|x: int| 0 <= x < rest@.len() implies #[trigger] events_view(rest@)[x]
                    == evs.skip(done + 1)[x] by {
                    assert(rest@[x] == before[x + 1]);
                    assert(events_view(before)[x + 1] == before[x + 1]@);
                    assert(evs.skip(done)[x + 1] == evs.skip(done + 1)[x]);
                }
            }
            let ghost cbefore = comps@;
            assert(cbefore.map_values(|c: Component| c@).len() == cbefore.len());
            assert(components_of(evs.take(done)).len() == done);
            let c = e.into_component();
            comps.push(c);
            assert(comps@ == cbefore.push(c));
            assert(c@ == event_component(evs[done]));
            assert(evs.take(done + 1) == evs.take(done).push(evs[done]));
            assert(comps@.map_values(|c: Component| c@) =~= components_of(evs.take(done + 1))) by {
                assert forall|x: int| 0 <= x < comps@.len() implies (#[trigger] comps@[x])@
                    == components_of(evs.take(done + 1))[x] by {
                    if x < comps@.len() - 1 {
                        assert(comps@[x] == cbefore[x]);
                        assert(cbefore.map_values(|c: Component| c@)[x] == components_of(evs.take(done))[x]);
                    }
                }
            }
        }
        assert(evs.take(total as int) == evs);
        let cal = Calendar::new(PRODUCT_NAME, SPEC_VERSION, comps);
        Ok(cal)
    }

    fn parse_row(&self, row: usize, dest: &mut Vec<Event>) -> (r: Result<(), ParseError>)
        requires
            self.inv(),
            row < self.doc().kinds.len(),
        ensures
            match row_events(self.doc(), self.id(), self.stamp(), row as int) {
                Ok(evs) => r is Ok && events_view(final(dest)@) == events_view(old(dest)@) + evs,
                Err(e) => r == Err::<(), ParseError>(e),
            },
            events_view(final(dest)@) == events_view(old(dest)@) + row_pushed(
                self.doc(),
                self.id(),
                self.stamp(),
                row as int,
            ),
            row_time(self.doc(), row as int) is Err ==> final(dest)@ == old(dest)@,
    {
        let ghost d = self.doc();
        let (h, mi) = match self.row_time(row) {
            Ok(t) => t,
            Err(e) => return Err(e),
        };
        let kids = self.input.children(row);
        let ghost kv = kids@.map_values(|j: usize| j as int);
        let mut cs: Vec<usize> = Vec::new();
        let mut i: usize = 0;
        while i < kids.len()
            invariant
                i <= kids.len(),
                self.inv(),
                d == self.doc(),
                kv == kids@.map_values(|j: usize| j as int),
                forall|k: int| 0 <= k < kids@.len() ==> #[trigger] kids@[k] < d.kinds.len(),
                forall|k: int| 0 <= k < cs@.len() ==> #[trigger] cs@[k] < d.kinds.len(),
                cs@.map_values(|j: usize| j as int) == with_class(d, kv.take(i as int), "celdaConSesion"@),
            decreases kids.len() - i,
        {
            assert(kv.take(i + 1).drop_last() == kv.take(i as int));
            assert(kv.take(i + 1).last() == kids@[i as int] as int);
            if self.input.has_class(kids[i], "celdaConSesion") {
                cs.push(kids[i]);
            }
            i = i + 1;
            assert(cs@.map_values(|j: usize| j as int) =~= with_class(d, kv.take(i as int), "celdaConSesion"@));
        }
        assert(kv.take(i as int) == kv);
        let ghost target = cell_results(d, row as int);
        let mut results: Vec<Result<Cell, ParseError>> = Vec::new();
        let mut k: usize = 0;
        while k < cs.len()
            invariant
                k <= cs.len(),
                self.inv(),
                d == self.doc(),
                target == cell_results(d, row as int),
                cs@.map_values(|j: usize| j as int) == with_class(d, children(d, row as int), "celdaConSesion"@),
                forall|x: int| 0 <= x < cs@.len() ==> #[trigger] cs@[x] < d.kinds.len(),
                results@ == target.take(k as int),
                forall|x: int| 0 <= x < results@.len() ==> (#[trigger] results@[x] matches Ok(c) ==> (
                    c.group as int) < d.kinds.len() && c.seconds > 0),
            decreases cs.len() - k,
        {
            assert(cs@.map_values(|j: usize| j as int)[k as int] == cs@[k as int] as int);
            let item = self.cell_info(cs[k]);
            results.push(item);
            k = k + 1;
            assert(results@ =~= target.take(k as int));
        }
        assert(target.take(k as int) == target);
        let ghost rs = results@;
        let mut p = process(results);
        let mut cells: Vec<Cell> = Vec::new();
        p.drain_into(&mut cells);
        proof {
            lemma_ok_prefix_items(rs);
            assert forall|x: int| 0 <= x < cells@.len() implies (#[trigger] cells@[x]).group
                < d.kinds.len() && cells@[x].seconds > 0 by {
                assert(rs[x] == Ok::<Cell, ParseError>(ok_prefix(rs)[x]));
            }
        }
        let ghost start = events_view(dest@);
        let ghost mut acc: Seq<EventView> = Seq::empty();
        let mut j: usize = 0;
        assert(cells@.take(0) =~= Seq::<Cell>::empty());
        while j < cells.len()
            invariant
                j <= cells.len(),
                self.inv(),
                d == self.doc(),
                h < 24,
                mi < 60,
                cells@ == ok_prefix(rs),
                rs == cell_results(d, row as int),
                row_time(d, row as int) == Ok::<(int, int), ParseError>((h as int, mi as int)),
                forall|x: int| 0 <= x < cells@.len() ==> (#[trigger] cells@[x]).group < d.kinds.len() && cells@[x].seconds > 0,
                cells_events(d, self.id(), self.stamp(), h as int, mi as int, cells@.take(j as int)) == Ok::<Seq<EventView>, ParseError>(acc),
                events_view(dest@) == start + acc,
                start == events_view(old(dest)@),
            decreases cells.len() - j,
        {
            let cell = cells[j];
            assert(cells@.take(j + 1).drop_last() == cells@.take(j as int));
            assert(cells@.take(j + 1).last() == cell);
            match self.push_sessions(h, mi, cell, dest) {
                Ok(()) => {},
                Err(e) => {
                    proof {
                        assert(cell_events(d, self.id(), self.stamp(), h as int, mi as int, cell) == Err::<Seq<EventView>, ParseError>(e));
                        let t = cells@.take(j + 1);
                        assert(t.len() > 0);
                        assert(cells_events(d, self.id(), self.stamp(), h as int, mi as int, t) == then_events(
                            cells_events(d, self.id(), self.stamp(), h as int, mi as int, t.drop_last()),
                            cell_events(d, self.id(), self.stamp(), h as int, mi as int, t.last()),
                        ));
                        lemma_cells_events_err(d, self.id(), self.stamp(), h as int, mi as int, cells@, j + 1);
                        lemma_cells_pushed_ok(d, self.id(), self.stamp(), h as int, mi as int, cells@.take(j as int));
                        assert(cells_pushed(d, self.id(), self.stamp(), h as int, mi as int, t) == cells_pushed(
                            d,
                            self.id(),
                            self.stamp(),
                            h as int,
                            mi as int,
                            t.drop_last(),
                        ) + cell_pushed(d, self.id(), self.stamp(), h as int, mi as int, t.last()));
                        lemma_cells_pushed_err(d, self.id(), self.stamp(), h as int, mi as int, cells@, j + 1);
                        assert(events_view(dest@) == start + acc + cell_pushed(d, self.id(), self.stamp(), h as int, mi as int, cell));
                        assert(events_view(dest@) =~= events_view(old(dest)@) + row_pushed(d, self.id(), self.stamp(), row as int));
                    }
                    return Err(e);
                },
            }
            proof {
                let b = cell_events(d, self.id(), self.stamp(), h as int, mi as int, cell)->Ok_0;
                assert(events_view(dest@) == start + acc + b);
                acc = acc + b;
                assert(events_view(dest@) =~= start + acc);
            }
            j = j + 1;
        }
        assert(cells@.take(j as int) == cells@);
        proof {
            lemma_cells_pushed_ok(d, self.id(), self.stamp(), h as int, mi as int, cells@);
            assert(events_view(dest@) =~= events_view(old(dest)@) + row_pushed(d, self.id(), self.stamp(), row as int));
        }
        match p.result() {
            Err(e) => Err(*e),
            Ok(_) => {
                assert(events_view(dest@) =~= events_view(old(dest)@) + acc);
                Ok(())
            },
        }
    }

    fn push_sessions(&self, hour: u32, minute: u32, cell: Cell, dest: &mut Vec<Event>) -> (r: Result<(), ParseError>)
        requires
            self.inv(),
            (cell.group as int) < self.doc().kinds.len(),
            cell.seconds > 0,
            hour < 24,
            minute < 60,
        ensures
            match cell_events(self.doc(), self.id(), self.stamp(), hour as int, minute as int, cell) {
                Ok(evs) => r is Ok && events_view(final(dest)@) == events_view(old(dest)@) + evs,
                Err(e) => r == Err::<(), ParseError>(e),
            },
            events_view(final(dest)@) == events_view(old(dest)@) + cell_pushed(
                self.doc(),
                self.id(),
                self.stamp(),
                hour as int,
                minute as int,
                cell,
            ),
            cell_sessions(self.doc(), cell) is None ==> final(dest)@ == old(dest)@,
    {
        let g = cell.group;
        let c = match self.input.first_child(g) {
            Some(c) => c,
            None => return Err(ParseError::ChildlessGroupElem),
        };
        let course = match self.input.text_of(c) {
            Some(t) => t,
            None => return Err(ParseError::NonTextualGroupChild),
        };
        let end = self.input.end(g);
        let s = match self.input.first_with_class(g + 1, end, "fechasSesion") {
            Some(s) => s,
            None => return Err(ParseError::MissingSessionsElem),
        };
        let nodes = self.input.children(s);
        let ghost nv = nodes@.map_values(|j: usize| j as int);
        let ghost f = SessionFrame {
            id: self.id(),
            stamp: self.stamp(),
            hour: hour as int,
            minute: minute as int,
            seconds: cell.seconds,
            course: course@,
        };
        let ghost target = session_results(self.doc(), f, nv);
        let count = nodes.len() / 3;
        let mut results: Vec<Result<Event, ParseError>> = Vec::new();
        let mut k: usize = 0;
        while k < count
            invariant
                k <= count == nodes@.len() / 3,
                nv == nodes@.map_values(|j: usize| j as int),
                target == session_results(self.doc(), f, nv),
                forall|i: int| 0 <= i < nodes@.len() ==> #[trigger] nodes@[i] < self.doc().kinds.len(),
                self.inv(),
                hour < 24,
                minute < 60,
                cell.seconds > 0,
                f == (SessionFrame {
                    id: self.id(),
                    stamp: self.stamp(),
                    hour: hour as int,
                    minute: minute as int,
                    seconds: cell.seconds,
                    course: course@,
                }),
                results_view(results@) == target.take(k as int),
            decreases count - k,
        {
            assert(3 * k + 2 < nodes@.len()) by (nonlinear_arith)
                requires
                    k < count,
                    count == nodes@.len() / 3,
            ;
            let date = nodes[3 * k];
            let loc = nodes[3 * k + 1];
            assert(date < self.doc().kinds.len() && loc < self.doc().kinds.len());
            assert(nv[3 * k] == date as int && nv[3 * k + 1] == loc as int);
            let item = if !self.input.is_element(date) {
                Err(ParseError::NonElementSessionDateNode)
            } else if !self.input.is_element(loc) {
                Err(ParseError::NonElementSessionLocationNode)
            } else {
                self.session_event(hour, minute, cell.seconds, &course, date, loc)
            };
            let ghost before = results@;
            results.push(item);
            assert(results@ == before.push(item));
            assert(target[k as int] == triple_event(self.doc(), f, nv, k as int));
            assert(results_view(results@) =~= results_view(before).push(target[k as int]));
            k = k + 1;
            assert(results_view(results@) =~= target.take(k as int));
        }
        assert(target.take(k as int) == target);
        proof {
            lemma_results_view(results@);
        }
        let mut p = process(results);
        p.drain_into(dest);
        proof {
            assert(events_view(dest@) =~= events_view(old(dest)@) + events_view(ok_prefix(results@)));
        }
        match p.result() {
            Err(e) => return Err(*e),
            Ok(_) => {},
        }
        if nodes.len() % 3 != 0 {
            return Err(ParseError::IrregularSessionList);
        }
        Ok(())
    }
}

} // verus!
