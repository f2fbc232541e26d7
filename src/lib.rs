//! Turns a university's published HTML timetable into an iCalendar
//! (RFC 5545) document that calendar applications can subscribe to.
//!
//! A [`TimetableId`] names one timetable and the address it is published
//! at; [`parse::Parser`] reads the timetable's page into calendar events;
//! [`ical`] holds the calendar model and renders it as text.
use crate::dom::Document;
use crate::ical::{calendar_props, Calendar, CalendarView};
use crate::parse::{components_of, document_events, ParseError, Parser, PRODUCT_NAME, SPEC_VERSION};
use crate::text::{
    chars_of, decimal, lemma_decimal_reads_back, lemma_signed_reads_back, padded_signed,
    parse_signed, parse_unsigned, push_decimal, push_padded_signed, push_str, signed_text, str_eq,
    string_of, unsigned_text,
};
use crate::time::ZonedDateTime;
use vstd::prelude::*;

pub mod dom;
pub mod ical;
pub mod parse;
pub mod text;
pub mod time;
pub mod util;

verus! {

/// The IANA time zone the university's timetables are given in.
pub const UC3M_TIMEZONE: &'static str = "Europe/Madrid";

/// The host that publishes the timetables.
pub const UC3M_TIMETABLE_DOMAIN: &'static str = "aplicaciones.uc3m.es";

/// Identifies a timetable.
#[derive(Debug, Clone, Copy, PartialEq, Eq)]
pub struct TimetableId {
    pub year: i32,
    pub plan: u16,
    pub center: u8,
    pub grade: u8,
    pub group: u16,
    pub period: u8,
    pub time_zone: &'static str,
}

/// The address of a timetable's page before its query: the year is a
/// path segment.
pub open spec fn base_address(id: TimetableId) -> Seq<char> {
    "https://aplicaciones.uc3m.es/horarios-web/publicacion/"@ + padded_signed(id.year as int, 0)
        + "/porCentroPlanCursoGrupo.tt"@
}

/// The query pairs of a timetable's address, in order.
pub open spec fn address_query(id: TimetableId) -> Seq<(Seq<char>, Seq<char>)> {
    seq![
        ("plan"@, decimal(id.plan as nat)),
        ("centro"@, decimal(id.center as nat)),
        ("curso"@, decimal(id.grade as nat)),
        ("grupo"@, decimal(id.group as nat)),
        ("tipoPer"@, "C"@),
        ("valorPer"@, decimal(id.period as nat)),
    ]
}

/// The view of query pairs.
pub open spec fn pairs_view(q: Seq<(String, String)>) -> Seq<(Seq<char>, Seq<char>)> {
    q.map_values(|p: (String, String)| (p.0@, p.1@))
}

/// What an address is made of, as a URL parser splits it.
pub struct UrlPartsView {
    pub domain: Option<Seq<char>>,
    pub segments: Option<Seq<Seq<char>>>,
    pub query: Seq<(Seq<char>, Seq<char>)>,
}

/// What an address is made of: its domain (none for an IP address), its
/// path segments (none for an address that cannot be a base) and its query
/// pairs, decoded, in order.
pub struct UrlParts {
    pub domain: Option<String>,
    pub segments: Option<Vec<String>>,
    pub query: Vec<(String, String)>,
}

impl View for UrlParts {
    type V = UrlPartsView;

    open spec fn view(&self) -> UrlPartsView {
        UrlPartsView {
            domain: match self.domain {
                Some(d) => Some(d@),
                None => None,
            },
            segments: match self.segments {
                Some(s) => Some(s@.map_values(|x: String| x@)),
                None => None,
            },
            query: pairs_view(self.query@),
        }
    }
}

/// The address that `Url::parse_with_params` makes of `base` and the query
/// pairs `pairs`, as text, or `None` when `base` is not a valid absolute
/// URL.
pub uninterp spec fn url_with_params_of(base: Seq<char>, pairs: Seq<(Seq<char>, Seq<char>)>) -> Option<Seq<char>>;

/// Relies on `url::Url::parse_with_params` (re-exported by reqwest) and on
/// `Url`'s `Display`: the absolute URL `base` with `pairs` appended to its
/// query.
#[verifier::external_body]
fn url_with_params(base: &str, pairs: &Vec<(String, String)>) -> (r: Option<String>)
    ensures
        match r {
            Some(u) => url_with_params_of(base@, pairs_view(pairs@)) == Some(u@),
            None => url_with_params_of(base@, pairs_view(pairs@)) is None,
        },
{
    reqwest::Url::parse_with_params(base, pairs).ok().map(|u| u.to_string())
}

/// The parts of the address `address` as the WHATWG URL parser reads them,
/// or `None` when it is not a valid absolute URL.
pub uninterp spec fn url_parts_of(address: Seq<char>) -> Option<UrlPartsView>;

/// Relies on `url::Url::parse` (re-exported by reqwest) with `domain`,
/// `path_segments` and `query_pairs`: the parts of an absolute URL.
#[verifier::external_body]
fn parse_url(address: &str) -> (r: Option<UrlParts>)
    ensures
        match r {
            Some(p) => url_parts_of(address@) == Some(p@),
            None => url_parts_of(address@) is None,
        },
{
    let url = reqwest::Url::parse(address).ok()?;
    Some(UrlParts {
        domain: url.domain().map(String::from),
        segments: url.path_segments().map(|s| s.map(String::from).collect()),
        query: url.query_pairs().map(|(k, v)| (k.into_owned(), v.into_owned())).collect(),
    })
}

/// An error met while reading a [`TimetableId`] from an address.
#[derive(Debug, Clone, Copy, PartialEq, Eq)]
pub enum TimetableUrlParseError {
    InvalidUrl,
    MissingDomain,
    IncorrectDomain,
    CannotBeABaseUrl,
    MissingYearSegment,
    InvalidYearSegment,
    MissingQueryParam(&'static str),
    InvalidQueryParam(&'static str),
}

/// What each error says; a query parameter's name is written in
/// backquotes.
pub open spec fn url_error_text(e: TimetableUrlParseError) -> Seq<char> {
    match e {
        TimetableUrlParseError::InvalidUrl => "cannot parse timetable url"@,
        TimetableUrlParseError::MissingDomain => "url is missing domain"@,
        TimetableUrlParseError::IncorrectDomain => "incorrect timetable domain"@,
        TimetableUrlParseError::CannotBeABaseUrl => "cannot parse cannot-be-a-base url"@,
        TimetableUrlParseError::MissingYearSegment => "url is missing year segment"@,
        TimetableUrlParseError::InvalidYearSegment => "cannot parse non-numeric year segment"@,
        TimetableUrlParseError::MissingQueryParam(name) => "missing query param `"@ + name@ + "`"@,
        TimetableUrlParseError::InvalidQueryParam(name) => "invalid query param `"@ + name@ + "`"@,
    }
}

impl TimetableUrlParseError {
    /// A description of the error.
    pub fn message(&self) -> (r: String)
        ensures
            r@ == url_error_text(*self),
    {
        let mut out: Vec<char> = Vec::new();
        match *self {
            TimetableUrlParseError::InvalidUrl => push_str(&mut out, "cannot parse timetable url"),
            TimetableUrlParseError::MissingDomain => push_str(&mut out, "url is missing domain"),
            TimetableUrlParseError::IncorrectDomain => push_str(&mut out, "incorrect timetable domain"),
            TimetableUrlParseError::CannotBeABaseUrl => push_str(
                &mut out,
                "cannot parse cannot-be-a-base url",
            ),
            TimetableUrlParseError::MissingYearSegment => push_str(&mut out, "url is missing year segment"),
            TimetableUrlParseError::InvalidYearSegment => push_str(
                &mut out,
                "cannot parse non-numeric year segment",
            ),
            TimetableUrlParseError::MissingQueryParam(name) => {
                push_str(&mut out, "missing query param `");
                push_str(&mut out, name);
                push_str(&mut out, "`");
            },
            TimetableUrlParseError::InvalidQueryParam(name) => {
                push_str(&mut out, "invalid query param `");
                push_str(&mut out, name);
                push_str(&mut out, "`");
            },
        }
        string_of(&out)
    }
}

/// The value of the last query pair named `key`: decoding the query into a
/// map keeps the last value of a repeated key.
pub open spec fn query_value(q: Seq<(Seq<char>, Seq<char>)>, key: Seq<char>) -> Option<Seq<char>>
    decreases q.len(),
{
    if q.len() == 0 {
        None
    } else if q.last().0 == key {
        Some(q.last().1)
    } else {
        query_value(q.drop_last(), key)
    }
}

/// A numeric query parameter no larger than `max`.
pub open spec fn query_number(q: Seq<(Seq<char>, Seq<char>)>, key: &'static str, max: int) -> Result<
    int,
    TimetableUrlParseError,
> {
    match query_value(q, key@) {
        None => Err(TimetableUrlParseError::MissingQueryParam(key)),
        Some(v) => match unsigned_text(v) {
            Some(n) if n <= max => Ok(n),
            _ => Err(TimetableUrlParseError::InvalidQueryParam(key)),
        },
    }
}

/// The timetable an address's parts name, or the first thing wrong with
/// them: the domain, the year (the third path segment), then the query
/// parameters `plan`, `centro`, `curso`, `grupo` and `valorPer`.
pub open spec fn id_from_parts(p: UrlPartsView) -> Result<TimetableId, TimetableUrlParseError> {
    if p.domain is None {
        Err(TimetableUrlParseError::MissingDomain)
    } else if p.domain->0 != UC3M_TIMETABLE_DOMAIN@ {
        Err(TimetableUrlParseError::IncorrectDomain)
    } else if p.segments is None {
        Err(TimetableUrlParseError::CannotBeABaseUrl)
    } else if p.segments->0.len() < 3 {
        Err(TimetableUrlParseError::MissingYearSegment)
    } else if !(signed_text(p.segments->0[2]) matches Some(y) && i32::MIN <= y <= i32::MAX) {
        Err(TimetableUrlParseError::InvalidYearSegment)
    } else if query_number(p.query, "plan", u16::MAX as int) is Err {
        Err(query_number(p.query, "plan", u16::MAX as int)->Err_0)
    } else if query_number(p.query, "centro", u8::MAX as int) is Err {
        Err(query_number(p.query, "centro", u8::MAX as int)->Err_0)
    } else if query_number(p.query, "curso", u8::MAX as int) is Err {
        Err(query_number(p.query, "curso", u8::MAX as int)->Err_0)
    } else if query_number(p.query, "grupo", u16::MAX as int) is Err {
        Err(query_number(p.query, "grupo", u16::MAX as int)->Err_0)
    } else if query_number(p.query, "valorPer", u8::MAX as int) is Err {
        Err(query_number(p.query, "valorPer", u8::MAX as int)->Err_0)
    } else {
        Ok(
            TimetableId {
                year: signed_text(p.segments->0[2])->0 as i32,
                plan: query_number(p.query, "plan", u16::MAX as int)->Ok_0 as u16,
                center: query_number(p.query, "centro", u8::MAX as int)->Ok_0 as u8,
                grade: query_number(p.query, "curso", u8::MAX as int)->Ok_0 as u8,
                group: query_number(p.query, "grupo", u16::MAX as int)->Ok_0 as u16,
                period: query_number(p.query, "valorPer", u8::MAX as int)->Ok_0 as u8,
                time_zone: UC3M_TIMEZONE,
            },
        )
    }
}

/// Looks up the last query pair named `key` and reads its value as a number
/// no larger than `max`.
fn get_query_number(query: &Vec<(String, String)>, key: &'static str, max: u64) -> (r: Result<
    u64,
    TimetableUrlParseError,
>)
    ensures
        match r {
            Ok(n) => query_number(pairs_view(query@), key, max as int) == Ok::<
                int,
                TimetableUrlParseError,
            >(n as int),
            Err(e) => query_number(pairs_view(query@), key, max as int) == Err::<
                int,
                TimetableUrlParseError,
            >(e),
        },
{
    let ghost q = pairs_view(query@);
    let mut i: usize = query.len();
    assert(q.take(i as int) == q);
    while i > 0
        invariant
            i <= query.len(),
            q == pairs_view(query@),
            query_value(q, key@) == query_value(q.take(i as int), key@),
        decreases i,
    {
        assert(q.take(i as int).drop_last() == q.take(i - 1));
        let pair = &query[i - 1];
        if str_eq(pair.0.as_str(), key) {
            let v = chars_of(pair.1.as_str());
            return match parse_unsigned(&v, max) {
                Some(n) => Ok(n),
                None => Err(TimetableUrlParseError::InvalidQueryParam(key)),
            };
        }
        i = i - 1;
    }
    Err(TimetableUrlParseError::MissingQueryParam(key))
}

/// The parts of the address [`TimetableId::url`] writes: the host, the
/// four path segments of [`base_address`] and the pairs of
/// [`address_query`].
pub open spec fn address_parts(id: TimetableId) -> UrlPartsView {
    UrlPartsView {
        domain: Some(UC3M_TIMETABLE_DOMAIN@),
        segments: Some(
            seq![
                "horarios-web"@,
                "publicacion"@,
                padded_signed(id.year as int, 0),
                "porCentroPlanCursoGrupo.tt"@,
            ],
        ),
        query: address_query(id),
    }
}

/// An identifier in the university's time zone is read back unchanged from
/// the parts of its own address.
pub proof fn lemma_address_round_trip(id: TimetableId)
    requires
        id.time_zone == UC3M_TIMEZONE,
    ensures
        id_from_parts(address_parts(id)) == Ok::<TimetableId, TimetableUrlParseError>(id),
{
    reveal_strlit("plan");
    reveal_strlit("centro");
    reveal_strlit("curso");
    reveal_strlit("grupo");
    reveal_strlit("tipoPer");
    reveal_strlit("valorPer");
    lemma_signed_reads_back(id.year as int);
    lemma_decimal_reads_back(id.plan as nat);
    lemma_decimal_reads_back(id.center as nat);
    lemma_decimal_reads_back(id.grade as nat);
    lemma_decimal_reads_back(id.group as nat);
    lemma_decimal_reads_back(id.period as nat);
    let q = address_parts(id).query;
    assert("plan"@.len() == 4);
    assert("centro"@.len() == 6);
    assert("curso"@.len() == 5);
    assert("grupo"@.len() == 5);
    assert("tipoPer"@.len() == 7);
    assert("valorPer"@.len() == 8);
    assert("plan"@ != "centro"@ && "plan"@ != "curso"@ && "plan"@ != "grupo"@);
    assert("plan"@ != "tipoPer"@ && "plan"@ != "valorPer"@);
    assert("centro"@ != "curso"@ && "centro"@ != "grupo"@ && "centro"@ != "tipoPer"@);
    assert("centro"@ != "valorPer"@);
    assert("curso"@[0] != "grupo"@[0]);
    assert("curso"@ != "grupo"@ && "curso"@ != "tipoPer"@ && "curso"@ != "valorPer"@);
    assert("grupo"@ != "tipoPer"@ && "grupo"@ != "valorPer"@);
    assert("tipoPer"@ != "valorPer"@);
    reveal_with_fuel(query_value, 7);
    assert(q.drop_last() == seq![
        ("plan"@, decimal(id.plan as nat)),
        ("centro"@, decimal(id.center as nat)),
        ("curso"@, decimal(id.grade as nat)),
        ("grupo"@, decimal(id.group as nat)),
        ("tipoPer"@, "C"@),
    ]);
    assert(q.drop_last().drop_last() == seq![
        ("plan"@, decimal(id.plan as nat)),
        ("centro"@, decimal(id.center as nat)),
        ("curso"@, decimal(id.grade as nat)),
        ("grupo"@, decimal(id.group as nat)),
    ]);
    assert(q.drop_last().drop_last().drop_last() == seq![
        ("plan"@, decimal(id.plan as nat)),
        ("centro"@, decimal(id.center as nat)),
        ("curso"@, decimal(id.grade as nat)),
    ]);
    assert(q.drop_last().drop_last().drop_last().drop_last() == seq![
        ("plan"@, decimal(id.plan as nat)),
        ("centro"@, decimal(id.center as nat)),
    ]);
    assert(q.drop_last().drop_last().drop_last().drop_last().drop_last() == seq![
        ("plan"@, decimal(id.plan as nat)),
    ]);
    assert(query_value(q, "valorPer"@) == Some(decimal(id.period as nat)));
    assert(query_value(q, "grupo"@) == Some(decimal(id.group as nat)));
    assert(query_value(q, "curso"@) == Some(decimal(id.grade as nat)));
    assert(query_value(q, "centro"@) == Some(decimal(id.center as nat)));
    assert(query_value(q, "plan"@) == Some(decimal(id.plan as nat)));
}

/// A string holding the characters of `s`.
fn owned(s: &str) -> (r: String)
    ensures
        r@ == s@,
{
    string_of(&chars_of(s))
}

/// A query pair whose value is a number in decimal.
fn query_pair(key: &str, n: u64) -> (r: (String, String))
    ensures
        r.0@ == key@,
        r.1@ == decimal(n as nat),
{
    let mut digits: Vec<char> = Vec::new();
    push_decimal(&mut digits, n);
    (owned(key), string_of(&digits))
}

impl TimetableId {
    /// Creates a timetable identifier.
    pub fn new(
        year: i32,
        plan: u16,
        center: u8,
        grade: u8,
        group: u16,
        period: u8,
        time_zone: &'static str,
    ) -> (r: Self)
        ensures
            r == (TimetableId { year, plan, center, grade, group, period, time_zone }),
    {
        TimetableId { year, plan, center, grade, group, period, time_zone }
    }

    /// The address of the timetable's page: the year in the path, the other
    /// fields in the query; `None` only when the URL library refuses the
    /// base address.
    pub fn url(&self) -> (r: Option<String>)
        ensures
            match r {
                Some(u) => url_with_params_of(base_address(*self), address_query(*self)) == Some(u@),
                None => url_with_params_of(base_address(*self), address_query(*self)) is None,
            },
    {
        let mut base: Vec<char> = Vec::new();
        push_str(&mut base, "https://aplicaciones.uc3m.es/horarios-web/publicacion/");
        push_padded_signed(&mut base, self.year as i64, 0);
        push_str(&mut base, "/porCentroPlanCursoGrupo.tt");
        let mut pairs: Vec<(String, String)> = Vec::new();
        pairs.push(query_pair("plan", self.plan as u64));
        pairs.push(query_pair("centro", self.center as u64));
        pairs.push(query_pair("curso", self.grade as u64));
        pairs.push(query_pair("grupo", self.group as u64));
        pairs.push((owned("tipoPer"), owned("C")));
        pairs.push(query_pair("valorPer", self.period as u64));
        assert(pairs_view(pairs@) =~= address_query(*self));
        url_with_params(string_of(&base).as_str(), &pairs)
    }

    /// Reads a timetable identifier from the parts of its address.
    pub fn try_from_parts(parts: &UrlParts) -> (r: Result<Self, TimetableUrlParseError>)
        ensures
            r == id_from_parts(parts@),
    {
        let domain = match &parts.domain {
            Some(d) => d,
            None => return Err(TimetableUrlParseError::MissingDomain),
        };
        if !str_eq(domain.as_str(), UC3M_TIMETABLE_DOMAIN) {
            return Err(TimetableUrlParseError::IncorrectDomain);
        }
        let segments = match &parts.segments {
            Some(s) => s,
            None => return Err(TimetableUrlParseError::CannotBeABaseUrl),
        };
        if segments.len() < 3 {
            return Err(TimetableUrlParseError::MissingYearSegment);
        }
        let year_text = chars_of(segments[2].as_str());
        assert(parts@.segments->0[2] == year_text@);
        let year = match parse_signed(&year_text, i32::MIN as i64, i32::MAX as i64) {
            Some(y) => y as i32,
            None => return Err(TimetableUrlParseError::InvalidYearSegment),
        };
        let plan = match get_query_number(&parts.query, "plan", u16::MAX as u64) {
            Ok(n) => n,
            Err(e) => return Err(e),
        };
        let center = match get_query_number(&parts.query, "centro", u8::MAX as u64) {
            Ok(n) => n,
            Err(e) => return Err(e),
        };
        let grade = match get_query_number(&parts.query, "curso", u8::MAX as u64) {
            Ok(n) => n,
            Err(e) => return Err(e),
        };
        let group = match get_query_number(&parts.query, "grupo", u16::MAX as u64) {
            Ok(n) => n,
            Err(e) => return Err(e),
        };
        let period = match get_query_number(&parts.query, "valorPer", u8::MAX as u64) {
            Ok(n) => n,
            Err(e) => return Err(e),
        };
        Ok(
            TimetableId {
                year,
                plan: plan as u16,
                center: center as u8,
                grade: grade as u8,
                group: group as u16,
                period: period as u8,
                time_zone: UC3M_TIMEZONE,
            },
        )
    }

    /// Reads a timetable identifier from its address.
    pub fn from_url(address: &str) -> (r: Result<Self, TimetableUrlParseError>)
        ensures
            match url_parts_of(address@) {
                None => r == Err::<Self, TimetableUrlParseError>(TimetableUrlParseError::InvalidUrl),
                Some(p) => r == id_from_parts(p),
            },
    {
        match parse_url(address) {
            Some(parts) => TimetableId::try_from_parts(&parts),
            None => Err(TimetableUrlParseError::InvalidUrl),
        }
    }
}

/// What a [`Timetable`] holds.
pub struct TimetableView {
    pub id: TimetableId,
    pub calendar: CalendarView,
    pub created_on: ZonedDateTime,
}

/// A timetable read into a calendar.
pub struct Timetable {
    id: TimetableId,
    calendar: Calendar,
    created_on: ZonedDateTime,
}

impl View for Timetable {
    type V = TimetableView;

    closed spec fn view(&self) -> TimetableView {
        TimetableView { id: self.id, calendar: self.calendar@, created_on: self.created_on }
    }
}

impl Timetable {
    /// Reads the page `html` of the timetable `id`, made at `created_on`.
    pub fn parse(id: TimetableId, html: &Document, created_on: ZonedDateTime) -> (r: Result<
        Self,
        ParseError,
    >)
        requires
            html.inv(),
        ensures
            match document_events(html@, id, created_on) {
                Err(e) => r == Err::<Self, ParseError>(e),
                Ok(evs) => if evs.len() == 0 {
                    r == Err::<Self, ParseError>(ParseError::EmptyTimetable)
                } else {
                    r matches Ok(t) && t@ == (TimetableView {
                        id,
                        calendar: CalendarView {
                            props: calendar_props(PRODUCT_NAME@, SPEC_VERSION@),
                            components: components_of(evs),
                        },
                        created_on,
                    })
                },
            },
    {
        let parser = Parser::new(&id, html, &created_on);
        match parser.parse() {
            Ok(calendar) => Ok(Timetable { id, calendar, created_on }),
            Err(e) => Err(e),
        }
    }

    /// The timetable's identifier.
    pub fn id(&self) -> (r: &TimetableId)
        ensures
            *r == self@.id,
    {
        &self.id
    }

    /// The timetable as an iCalendar object.
    pub fn calendar(&self) -> (r: &Calendar)
        ensures
            r@ == self@.calendar,
    {
        &self.calendar
    }

    /// When the calendar was made.
    pub fn created_on(&self) -> (r: &ZonedDateTime)
        ensures
            *r == self@.created_on,
    {
        &self.created_on
    }
}

} // verus!
