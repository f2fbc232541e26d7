//! Calendar components built from typed values: events and their
//! recurrence rules.
use crate::ical::{
    date_time_prop, date_time_text, escape_text, push_date_time, Component, Prop, PropView,
};
use crate::text::{decimal, push_decimal, push_str, string_of};
use crate::time::{duration_text, push_duration, Duration, ZonedDateTime};
use vstd::prelude::*;

verus! {

/// Named intervals of time.
#[derive(Debug, Clone, Copy, PartialEq, Eq, Structural)]
pub enum TimeUnit {
    Second,
    Minute,
    Hour,
    Day,
    Week,
    Month,
    Year,
}

/// The `FREQ` keyword of each unit.
pub open spec fn freq_text(u: TimeUnit) -> Seq<char> {
    match u {
        TimeUnit::Second => "SECONDLY"@,
        TimeUnit::Minute => "MINUTELY"@,
        TimeUnit::Hour => "HOURLY"@,
        TimeUnit::Day => "DAILY"@,
        TimeUnit::Week => "WEEKLY"@,
        TimeUnit::Month => "MONTHLY"@,
        TimeUnit::Year => "YEARLY"@,
    }
}

impl TimeUnit {
    /// The frequency keyword used to render a [`Recurrence`].
    pub fn recurrence_freq(&self) -> (r: &'static str)
        ensures
            r@ == freq_text(*self),
    {
        match *self {
            TimeUnit::Second => "SECONDLY",
            TimeUnit::Minute => "MINUTELY",
            TimeUnit::Hour => "HOURLY",
            TimeUnit::Day => "DAILY",
            TimeUnit::Week => "WEEKLY",
            TimeUnit::Month => "MONTHLY",
            TimeUnit::Year => "YEARLY",
        }
    }
}

/// What a [`Recurrence`] holds.
pub struct RecurrenceView {
    pub frequency: TimeUnit,
    pub until: Option<ZonedDateTime>,
    pub count: Option<u32>,
    pub interval: Option<u32>,
}

/// A recurrence rule, bounded either by a last instant or by a number of
/// occurrences.
pub struct Recurrence {
    frequency: TimeUnit,
    until: Option<ZonedDateTime>,
    count: Option<u32>,
    interval: Option<u32>,
}

impl View for Recurrence {
    type V = RecurrenceView;

    closed spec fn view(&self) -> RecurrenceView {
        RecurrenceView {
            frequency: self.frequency,
            until: self.until,
            count: self.count,
            interval: self.interval,
        }
    }
}

/// A recurrence rule as rendered: `FREQ=<unit>`, then `;UNTIL=<UTC time>` or
/// `;COUNT=<n>`, then `;INTERVAL=<n>` if set. The bound is written in UTC,
/// as RFC 5545 asks.
pub open spec fn recurrence_text(r: RecurrenceView) -> Seq<char> {
    "FREQ="@ + freq_text(r.frequency) + match r.until {
        Some(u) => ";UNTIL="@ + date_time_text(u.utc),
        None => match r.count {
            Some(n) => ";COUNT="@ + decimal(n as nat),
            None => Seq::empty(),
        },
    } + match r.interval {
        Some(n) => ";INTERVAL="@ + decimal(n as nat),
        None => Seq::empty(),
    }
}

impl Recurrence {
    /// A rule that repeats with the given frequency until the given instant,
    /// inclusive.
    pub fn until(frequency: TimeUnit, until: ZonedDateTime) -> (r: Self)
        ensures
            r@ == (RecurrenceView { frequency, until: Some(until), count: None, interval: None }),
    {
        Recurrence { frequency, until: Some(until), count: None, interval: None }
    }

    /// A rule that repeats with the given frequency `count` times, the
    /// event's start counting as the first.
    pub fn times(frequency: TimeUnit, count: u32) -> (r: Self)
        requires
            can_repeat_times(count),
        ensures
            r@ == (RecurrenceView { frequency, until: None, count: Some(count), interval: None }),
    {
        Recurrence { frequency, until: None, count: Some(count), interval: None }
    }

    /// Sets the interval at which the rule repeats: with a daily frequency,
    /// `8` means every eighth day.
    pub fn interval(&mut self, interval: u32)
        requires
            interval > 0,
        ensures
            final(self)@ == (RecurrenceView { interval: Some(interval), ..old(self)@ }),
    {
        self.interval = Some(interval);
    }

    /// Appends the rendered rule.
    fn push_text(&self, out: &mut Vec<char>)
        ensures
            final(out)@ == old(out)@ + recurrence_text(self@),
    {
        let ghost start = out@;
        push_str(out, "FREQ=");
        push_str(out, self.frequency.recurrence_freq());
        match self.until {
            Some(u) => {
                push_str(out, ";UNTIL=");
                push_date_time(out, &u.utc);
            },
            None => match self.count {
                Some(n) => {
                    push_str(out, ";COUNT=");
                    push_decimal(out, n as u64);
                },
                None => {},
            },
        }
        match self.interval {
            Some(n) => {
                push_str(out, ";INTERVAL=");
                push_decimal(out, n as u64);
            },
            None => {},
        }
        assert(out@ == start + recurrence_text(self@));
    }

    /// The rendered rule.
    pub fn to_string(&self) -> (r: String)
        ensures
            r@ == recurrence_text(self@),
    {
        let mut out: Vec<char> = Vec::new();
        self.push_text(&mut out);
        string_of(&out)
    }
}

/// The view of an optional string.
pub open spec fn opt_view(o: Option<String>) -> Option<Seq<char>> {
    match o {
        Some(s) => Some(s@),
        None => None,
    }
}

/// What an [`Event`] holds.
pub struct EventView {
    pub uid: Seq<char>,
    pub last_modified: ZonedDateTime,
    pub start: ZonedDateTime,
    pub created_on: Option<ZonedDateTime>,
    pub summary: Option<Seq<char>>,
    pub description: Option<Seq<char>>,
    pub location: Option<Seq<char>>,
    pub recurrence: Option<RecurrenceView>,
    pub end: Option<ZonedDateTime>,
    pub duration: Option<Duration>,
}

/// A scheduled amount of time on a calendar. An event has an end or a
/// duration, never both.
pub struct Event {
    uid: String,
    last_modified: ZonedDateTime,
    start: ZonedDateTime,
    created_on: Option<ZonedDateTime>,
    summary: Option<String>,
    description: Option<String>,
    location: Option<String>,
    recurrence: Option<Recurrence>,
    end: Option<ZonedDateTime>,
    duration: Option<Duration>,
}

impl Event {
    /// A set duration is positive, and an event never has both an end and a
    /// duration.
    #[verifier::type_invariant]
    spec fn well_formed(&self) -> bool {
        &&& self.duration matches Some(d) ==> d.seconds > 0
        &&& !(self.end is Some && self.duration is Some)
    }
}

impl View for Event {
    type V = EventView;

    closed spec fn view(&self) -> EventView {
        EventView {
            uid: self.uid@,
            last_modified: self.last_modified,
            start: self.start,
            created_on: self.created_on,
            summary: opt_view(self.summary),
            description: opt_view(self.description),
            location: opt_view(self.location),
            recurrence: match self.recurrence {
                Some(r) => Some(r@),
                None => None,
            },
            end: self.end,
            duration: self.duration,
        }
    }
}

/// Whether an event may be given an end: it has no duration.
pub open spec fn can_set_end(e: EventView) -> bool {
    e.duration is None
}

/// Whether an event may be given the duration `d`: it has no end, and `d`
/// is positive.
pub open spec fn can_set_duration(e: EventView, d: Duration) -> bool {
    e.end is None && d.seconds > 0
}

/// An event with its end set.
pub open spec fn with_end(e: EventView, end: ZonedDateTime) -> EventView {
    EventView { end: Some(end), ..e }
}

/// An event with its duration set.
pub open spec fn with_duration(e: EventView, d: Duration) -> EventView {
    EventView { duration: Some(d), ..e }
}

/// Whether a rule may repeat `count` times: the count is positive.
pub open spec fn can_repeat_times(count: u32) -> bool {
    count > 0
}

/// An end and a duration exclude each other whatever the order they are
/// set in: once either is set, [`Event::end`] and [`Event::duration`] no
/// longer accept the other, so no call sequence sets both; and
/// [`Recurrence::times`] does not accept a count of zero.
pub proof fn lemma_end_duration_exclusive(e: EventView, end: ZonedDateTime, d: Duration, d2: Duration)
    ensures
        can_set_end(e) ==> !can_set_duration(with_end(e, end), d2),
        can_set_duration(e, d) ==> !can_set_end(with_duration(e, d)),
        !can_repeat_times(0),
{
}

/// A property for a value that may be missing: one property or none.
pub open spec fn optional(p: Option<PropView>) -> Seq<PropView> {
    match p {
        Some(p) => seq![p],
        None => Seq::empty(),
    }
}

/// A property with a raw value and no parameters.
pub open spec fn plain_prop(name: Seq<char>, value: Seq<char>) -> PropView {
    PropView { name, params: Seq::empty(), value }
}

/// The properties of an event's component, in their fixed order: `DTSTAMP`,
/// `UID`, `DTSTART`, then those of the optional fields that are set,
/// `CREATED`, `SUMMARY`, `DESCRIPTION`, `LOCATION`, `DTEND`, `DURATION`,
/// `RRULE`.
pub open spec fn event_props(e: EventView) -> Seq<PropView> {
    seq![
        date_time_prop("DTSTAMP"@, e.last_modified),
        plain_prop("UID"@, escape_text(e.uid)),
        date_time_prop("DTSTART"@, e.start),
    ] + optional(
        match e.created_on {
            Some(c) => Some(date_time_prop("CREATED"@, c)),
            None => None,
        },
    ) + optional(
        match e.summary {
            Some(s) => Some(plain_prop("SUMMARY"@, s)),
            None => None,
        },
    ) + optional(
        match e.description {
            Some(s) => Some(plain_prop("DESCRIPTION"@, s)),
            None => None,
        },
    ) + optional(
        match e.location {
            Some(s) => Some(plain_prop("LOCATION"@, s)),
            None => None,
        },
    ) + optional(
        match e.end {
            Some(t) => Some(date_time_prop("DTEND"@, t)),
            None => None,
        },
    ) + optional(
        match e.duration {
            Some(d) => Some(plain_prop("DURATION"@, duration_text(d.seconds as nat))),
            None => None,
        },
    ) + optional(
        match e.recurrence {
            Some(r) => Some(plain_prop("RRULE"@, recurrence_text(r))),
            None => None,
        },
    )
}

/// The view of an optional property.
pub open spec fn opt_prop(p: Option<Prop>) -> Option<PropView> {
    match p {
        Some(p) => Some(p@),
        None => None,
    }
}

/// Appends a property if there is one.
fn push_optional(props: &mut Vec<Prop>, p: Option<Prop>)
    ensures
        final(props)@.map_values(|q: Prop| q@) == old(props)@.map_values(|q: Prop| q@)
            + optional(opt_prop(p)),
{
    match p {
        Some(q) => {
            props.push(q);
        },
        None => {},
    }
    assert(props@.map_values(|q: Prop| q@) =~= old(props)@.map_values(|q: Prop| q@)
        + optional(opt_prop(p)));
}

/// The component of an event.
pub open spec fn event_component(e: EventView) -> crate::ical::ComponentView {
    crate::ical::ComponentView { name: "VEVENT"@, props: event_props(e) }
}

impl Event {
    /// Creates an event, where `uid` is its persistent, globally unique
    /// identifier, `last_modified` is when its information last changed, and
    /// `start` is when it begins.
    pub fn new(uid: &str, last_modified: ZonedDateTime, start: ZonedDateTime) -> (r: Self)
        ensures
            r@ == (EventView {
                uid: uid@,
                last_modified,
                start,
                created_on: None,
                summary: None,
                description: None,
                location: None,
                recurrence: None,
                end: None,
                duration: None,
            }),
    {
        Event {
            uid: string_of(&crate::text::chars_of(uid)),
            last_modified,
            start,
            created_on: None,
            summary: None,
            description: None,
            location: None,
            recurrence: None,
            end: None,
            duration: None,
        }
    }

    /// Sets when the event's information was created.
    pub fn created_on(self, created_on: ZonedDateTime) -> (r: Self)
        ensures
            r@ == (EventView { created_on: Some(created_on), ..self@ }),
    {
        proof {
            use_type_invariant(&self);
        }
        Event { created_on: Some(created_on), ..self }
    }

    /// Sets a short summary or subject of the event.
    pub fn summary(self, summary: &str) -> (r: Self)
        ensures
            r@ == (EventView { summary: Some(summary@), ..self@ }),
    {
        proof {
            use_type_invariant(&self);
        }
        Event { summary: Some(string_of(&crate::text::chars_of(summary))), ..self }
    }

    /// Sets a description of the event.
    pub fn description(self, description: &str) -> (r: Self)
        ensures
            r@ == (EventView { description: Some(description@), ..self@ }),
    {
        proof {
            use_type_invariant(&self);
        }
        Event { description: Some(string_of(&crate::text::chars_of(description))), ..self }
    }

    /// Sets where the event takes place.
    pub fn location(self, location: &str) -> (r: Self)
        ensures
            r@ == (EventView { location: Some(location@), ..self@ }),
    {
        proof {
            use_type_invariant(&self);
        }
        Event { location: Some(string_of(&crate::text::chars_of(location))), ..self }
    }

    /// Sets the event's recurrence rule.
    pub fn recurrence(self, recurrence: Recurrence) -> (r: Self)
        ensures
            r@ == (EventView { recurrence: Some(recurrence@), ..self@ }),
    {
        proof {
            use_type_invariant(&self);
        }
        Event { recurrence: Some(recurrence), ..self }
    }

    /// Sets when the event ends. An event with a duration cannot also have
    /// an end.
    pub fn end(self, end: ZonedDateTime) -> (r: Self)
        requires
            can_set_end(self@),
        ensures
            r@ == with_end(self@, end),
    {
        proof {
            use_type_invariant(&self);
        }
        Event { end: Some(end), ..self }
    }

    /// Sets how long the event lasts, a positive span. An event with an end
    /// cannot also have a duration.
    pub fn duration(self, duration: Duration) -> (r: Self)
        requires
            can_set_duration(self@, duration),
        ensures
            r@ == with_duration(self@, duration),
    {
        proof {
            use_type_invariant(&self);
        }
        Event { duration: Some(duration), ..self }
    }

    /// The event as a calendar component, its properties in the fixed order
    /// of [`event_props`].
    pub fn into_component(self) -> (r: Component)
        ensures
            r@ == event_component(self@),
    {
        proof {
            use_type_invariant(&self);
        }
        let ghost e = self@;
        let mut props: Vec<Prop> = Vec::new();
        props.push(Prop::date_time("DTSTAMP", &self.last_modified));
        let uid = self.uid.as_str();
        let uids = [uid];
        assert(uids@.map_values(|v: &str| v@) =~= seq![e.uid]);
        assert(crate::ical::text_list(seq![e.uid]) == escape_text(e.uid));
        props.push(Prop::text("UID", &uids));
        props.push(Prop::date_time("DTSTART", &self.start));
        let ghost head_props = seq![
            date_time_prop("DTSTAMP"@, e.last_modified),
            plain_prop("UID"@, escape_text(e.uid)),
            date_time_prop("DTSTART"@, e.start),
        ];
        assert(props@.map_values(|p: Prop| p@) =~= head_props);
        let created = match self.created_on {
            Some(c) => Some(Prop::date_time("CREATED", &c)),
            None => None,
        };
        push_optional(&mut props, created);
        let summary = match &self.summary {
            Some(s) => Some(Prop::new("SUMMARY", s.as_str())),
            None => None,
        };
        push_optional(&mut props, summary);
        let description = match &self.description {
            Some(s) => Some(Prop::new("DESCRIPTION", s.as_str())),
            None => None,
        };
        push_optional(&mut props, description);
        let location = match &self.location {
            Some(s) => Some(Prop::new("LOCATION", s.as_str())),
            None => None,
        };
        push_optional(&mut props, location);
        let end = match self.end {
            Some(t) => Some(Prop::date_time("DTEND", &t)),
            None => None,
        };
        push_optional(&mut props, end);
        let duration = match self.duration {
            Some(d) => {
                let mut text: Vec<char> = Vec::new();
                push_duration(&mut text, d);
                Some(Prop::new("DURATION", string_of(&text).as_str()))
            },
            None => None,
        };
        push_optional(&mut props, duration);
        let rrule = match &self.recurrence {
            Some(r) => Some(Prop::new("RRULE", r.to_string().as_str())),
            None => None,
        };
        push_optional(&mut props, rrule);
        assert(props@.map_values(|p: Prop| p@) =~= event_props(e));
        Component::new("VEVENT", props)
    }
}

} // verus!
