//! The iCalendar (RFC 5545) object model and its text form.
//!
//! Objects are built bottom-up (parameters, properties, components, the
//! calendar) and rendered by `to_string`, which applies the format's
//! escaping, quoting and line folding.
use crate::text::{
    chars_of, padded, padded_signed, push_padded, push_padded_signed, push_str, str_eq, string_of,
};
use crate::time::{CivilDateTime, ZonedDateTime};
use vstd::prelude::*;
use vstd::utf8::{char_is_scalar, encode_scalar};

pub mod components;

verus! {

/// The longest content line, in octets, before it is folded.
pub const MAX_LINE_LEN: usize = 75;

/// What a [`Param`] holds.
pub struct ParamView {
    pub name: Seq<char>,
    pub values: Seq<Seq<char>>,
}

/// What a [`Prop`] holds.
pub struct PropView {
    pub name: Seq<char>,
    pub params: Seq<ParamView>,
    pub value: Seq<char>,
}

/// What a [`Component`] holds.
pub struct ComponentView {
    pub name: Seq<char>,
    pub props: Seq<PropView>,
}

/// What a [`Calendar`] holds.
pub struct CalendarView {
    pub props: Seq<PropView>,
    pub components: Seq<ComponentView>,
}

// ---------------------------------------------------------------------------
// The text form, stated over the views.

/// The number of octets of `c` in UTF-8.
pub open spec fn utf8_len(c: char) -> int {
    encode_scalar(c as u32).len() as int
}

/// Folds a content line whose current physical line already holds `used`
/// octets: before a character that would take the physical line past
/// [`MAX_LINE_LEN`] octets comes `"\r\n "`, and the new physical line then
/// counts the leading space and that character.
pub open spec fn fold_from(s: Seq<char>, used: int) -> Seq<char>
    decreases s.len(),
{
    if s.len() == 0 {
        Seq::empty()
    } else {
        let n = utf8_len(s[0]);
        if used + n > MAX_LINE_LEN {
            seq!['\r', '\n', ' ', s[0]] + fold_from(s.drop_first(), 1 + n)
        } else {
            seq![s[0]] + fold_from(s.drop_first(), used + n)
        }
    }
}

/// A content line, folded.
pub open spec fn fold(s: Seq<char>) -> Seq<char> {
    fold_from(s, 0)
}

/// A folded text with its folds taken out: each `"\r\n "` is removed.
pub open spec fn unfold(t: Seq<char>) -> Seq<char>
    decreases t.len(),
{
    if t.len() == 0 {
        Seq::empty()
    } else if t.len() >= 3 && t[0] == '\r' && t[1] == '\n' && t[2] == ' ' {
        unfold(t.skip(3))
    } else {
        seq![t[0]] + unfold(t.drop_first())
    }
}

/// Whether `s` holds no CRLF followed by a space, which would read as a
/// fold.
pub open spec fn fold_free(s: Seq<char>) -> bool {
    forall|i: int|
        0 <= i && i + 2 < s.len() ==> !(#[trigger] s[i] == '\r' && s[i + 1] == '\n' && s[i + 2] == ' ')
}

/// The number of octets of `s` in UTF-8.
pub open spec fn octets(s: Seq<char>) -> int
    decreases s.len(),
{
    if s.len() == 0 {
        0
    } else {
        utf8_len(s[0]) + octets(s.drop_first())
    }
}

proof fn lemma_fold_free_tail(s: Seq<char>)
    requires
        fold_free(s),
        s.len() > 0,
    ensures
        fold_free(s.drop_first()),
{
    let r = s.drop_first();
    assert forall|i: int| 0 <= i && i + 2 < r.len() implies !(#[trigger] r[i] == '\r' && r[i + 1]
        == '\n' && r[i + 2] == ' ') by {
        assert(r[i] == s[i + 1] && r[i + 1] == s[i + 2] && r[i + 2] == s[i + 3]);
    }
}

/// A line's first character followed by the folding of the rest does not
/// read as a fold, when the line holds no CRLF followed by a space.
proof fn lemma_no_fold_at_head(s: Seq<char>, next: int)
    requires
        fold_free(s),
        s.len() > 0,
    ensures
        ({
            let x = seq![s[0]] + fold_from(s.drop_first(), next);
            !(x.len() >= 3 && x[0] == '\r' && x[1] == '\n' && x[2] == ' ')
        }),
{
    let r = s.drop_first();
    let f = fold_from(r, next);
    if r.len() > 0 {
        let n1 = utf8_len(r[0]);
        let r2 = r.drop_first();
        let next2 = next + n1;
        if next + n1 > MAX_LINE_LEN {
            assert(f[0] == '\r');
        } else {
            assert(f == seq![r[0]] + fold_from(r2, next2));
            assert(f[0] == r[0] && r[0] == s[1]);
            if r2.len() > 0 {
                let n2 = utf8_len(r2[0]);
                if next2 + n2 > MAX_LINE_LEN {
                    assert(fold_from(r2, next2)[0] == '\r');
                    assert(f[1] == '\r');
                } else {
                    assert(fold_from(r2, next2)[0] == r2[0]);
                    assert(f[1] == s[2]);
                }
            } else {
                assert(f.len() == 1);
            }
        }
    } else {
        assert(f.len() == 0);
    }
}

/// Unfolding a folded line gives the line back, provided it does not
/// itself hold a CRLF followed by a space.
pub proof fn lemma_unfold_fold(s: Seq<char>, used: int)
    requires
        fold_free(s),
    ensures
        unfold(fold_from(s, used)) == s,
    decreases s.len(),
{
    if s.len() > 0 {
        let c = s[0];
        let r = s.drop_first();
        let n = utf8_len(c);
        let next = if used + n > MAX_LINE_LEN { 1 + n } else { used + n };
        lemma_fold_free_tail(s);
        lemma_unfold_fold(r, next);
        let f = fold_from(r, next);
        let x = seq![c] + f;
        lemma_no_fold_at_head(s, next);
        assert(x.drop_first() == f);
        assert(unfold(x) == seq![c] + unfold(f));
        if used + n > MAX_LINE_LEN {
            let y = seq!['\r', '\n', ' '] + x;
            assert(fold_from(s, used) == y);
            assert(y.skip(3) == x);
        } else {
            assert(fold_from(s, used) == x);
        }
        assert(seq![c] + r == s);
    }
}

/// Whether a folded text breaks its lines exactly at the limit: each
/// physical line holds at most [`MAX_LINE_LEN`] octets (the first one
/// starting with `used` octets already written, a continuation line with
/// its leading space), and a fold comes only before a character that would
/// take its line past the limit.
pub open spec fn folded_at_limit(t: Seq<char>, used: int) -> bool
    decreases t.len(),
{
    if t.len() == 0 {
        true
    } else if t.len() >= 4 && t[0] == '\r' && t[1] == '\n' && t[2] == ' ' {
        used + utf8_len(t[3]) > MAX_LINE_LEN && folded_at_limit(t.skip(3), 1)
    } else {
        used + utf8_len(t[0]) <= MAX_LINE_LEN && folded_at_limit(t.drop_first(), used + utf8_len(t[0]))
    }
}

/// Folding breaks lines exactly at [`MAX_LINE_LEN`] octets, provided the
/// line does not itself hold a CRLF followed by a space.
pub proof fn lemma_fold_at_limit(s: Seq<char>, used: int)
    requires
        fold_free(s),
        0 <= used <= MAX_LINE_LEN,
    ensures
        folded_at_limit(fold_from(s, used), used),
    decreases s.len(),
{
    if s.len() > 0 {
        let c = s[0];
        let r = s.drop_first();
        let n = utf8_len(c);
        assert(1 <= n <= 4) by {
            char_is_scalar(c);
        }
        let next = if used + n > MAX_LINE_LEN { 1 + n } else { used + n };
        lemma_fold_free_tail(s);
        lemma_fold_at_limit(r, next);
        let f = fold_from(r, next);
        let x = seq![c] + f;
        lemma_no_fold_at_head(s, next);
        assert(x.drop_first() == f);
        if used + n > MAX_LINE_LEN {
            let y = seq!['\r', '\n', ' '] + x;
            assert(fold_from(s, used) == y);
            assert(y.skip(3) == x);
            assert(y[3] == c);
            assert(folded_at_limit(x, 1));
        } else {
            assert(fold_from(s, used) == x);
        }
    }
}

/// A content line of at most [`MAX_LINE_LEN`] octets is not folded.
pub proof fn lemma_short_line_unfolded(s: Seq<char>, used: int)
    requires
        0 <= used,
        used + octets(s) <= MAX_LINE_LEN,
    ensures
        fold_from(s, used) == s,
    decreases s.len(),
{
    if s.len() > 0 {
        assert(utf8_len(s[0]) >= 1) by {
            assert(encode_scalar(s[0] as u32).len() >= 1);
        }
        lemma_octets_nonneg(s.drop_first());
        lemma_short_line_unfolded(s.drop_first(), used + utf8_len(s[0]));
        assert(seq![s[0]] + s.drop_first() == s);
    }
}

proof fn lemma_octets_nonneg(s: Seq<char>)
    ensures
        octets(s) >= 0,
    decreases s.len(),
{
    if s.len() > 0 {
        assert(encode_scalar(s[0] as u32).len() >= 1);
        lemma_octets_nonneg(s.drop_first());
    }
}

/// A rendered property is its folded content line and CRLF: the content
/// line is broken exactly where a line would pass [`MAX_LINE_LEN`] octets,
/// and taking the folds out gives the content line back.
pub proof fn lemma_prop_text_folding(p: PropView)
    requires
        fold_free(content_line(p)),
    ensures
        prop_text(p) == fold(content_line(p)) + seq!['\r', '\n'],
        folded_at_limit(fold(content_line(p)), 0),
        unfold(fold(content_line(p))) == content_line(p),
{
    lemma_unfold_fold(content_line(p), 0);
    lemma_fold_at_limit(content_line(p), 0);
}

/// A text value's character, escaped: `\`, `;`, `,` and newline take a
/// backslash.
pub open spec fn escape_char(c: char) -> Seq<char> {
    if c == '\\' {
        seq!['\\', '\\']
    } else if c == ';' {
        seq!['\\', ';']
    } else if c == ',' {
        seq!['\\', ',']
    } else if c == '\n' {
        seq!['\\', 'n']
    } else {
        seq![c]
    }
}

/// A text value, escaped.
pub open spec fn escape_text(s: Seq<char>) -> Seq<char>
    decreases s.len(),
{
    if s.len() == 0 {
        Seq::empty()
    } else {
        escape_text(s.drop_last()) + escape_char(s.last())
    }
}

/// Escaping works character by character: the escaped concatenation of
/// two texts is the concatenation of their escapes, so each `\`, `;`, `,`
/// and newline is escaped on its own, whatever surrounds it.
pub proof fn lemma_escape_concat(a: Seq<char>, b: Seq<char>)
    ensures
        escape_text(a + b) == escape_text(a) + escape_text(b),
    decreases b.len(),
{
    if b.len() == 0 {
        assert(a + b == a);
    } else {
        lemma_escape_concat(a, b.drop_last());
        assert((a + b).drop_last() == a + b.drop_last());
        assert((a + b).last() == b.last());
    }
}

/// Several text values, each escaped, joined by `,`.
pub open spec fn text_list(vals: Seq<Seq<char>>) -> Seq<char>
    decreases vals.len(),
{
    if vals.len() == 0 {
        Seq::empty()
    } else if vals.len() == 1 {
        escape_text(vals[0])
    } else {
        text_list(vals.drop_last()) + seq![','] + escape_text(vals.last())
    }
}

/// Reads text values from a property value: a `\` and the character after
/// it stand for that character (`\n` for a newline), and a comma not so
/// escaped ends a value. `cur` is the value read so far.
pub open spec fn unescape_from(t: Seq<char>, cur: Seq<char>) -> Seq<Seq<char>>
    decreases t.len(),
{
    if t.len() == 0 {
        seq![cur]
    } else if t[0] == '\\' && t.len() >= 2 {
        unescape_from(t.skip(2), cur.push(if t[1] == 'n' { '\n' } else { t[1] }))
    } else if t[0] == ',' {
        seq![cur] + unescape_from(t.drop_first(), Seq::empty())
    } else {
        unescape_from(t.drop_first(), cur.push(t[0]))
    }
}

/// The text values a property value holds.
pub open spec fn unescape_list(t: Seq<char>) -> Seq<Seq<char>> {
    unescape_from(t, Seq::empty())
}

proof fn lemma_escape_front(s: Seq<char>)
    requires
        s.len() > 0,
    ensures
        escape_text(s) == escape_char(s[0]) + escape_text(s.drop_first()),
{
    lemma_escape_concat(seq![s[0]], s.drop_first());
    assert(seq![s[0]] + s.drop_first() == s);
    assert(seq![s[0]].drop_last() == Seq::<char>::empty());
    assert(seq![s[0]].last() == s[0]);
    assert(escape_text(Seq::<char>::empty()) == Seq::<char>::empty());
    assert(escape_text(seq![s[0]]) == Seq::<char>::empty() + escape_char(s[0]));
    assert(Seq::<char>::empty() + escape_char(s[0]) == escape_char(s[0]));
}

proof fn lemma_unescape_escaped(s: Seq<char>, rest: Seq<char>, cur: Seq<char>)
    ensures
        unescape_from(escape_text(s) + rest, cur) == unescape_from(rest, cur + s),
    decreases s.len(),
{
    if s.len() == 0 {
        assert(escape_text(s) + rest == rest);
        assert(cur + s == cur);
    } else {
        let c = s[0];
        let tail = s.drop_first();
        lemma_escape_front(s);
        lemma_unescape_escaped(tail, rest, cur.push(c));
        let t = escape_text(s) + rest;
        let e = escape_char(c);
        assert(t == e + (escape_text(tail) + rest));
        assert(cur.push(c) + tail == cur + s);
        if e.len() == 2 {
            assert(t.skip(2) == escape_text(tail) + rest);
            assert(t[0] == '\\');
            assert(c == '\n' ==> t[1] == 'n');
            assert(c != '\n' ==> t[1] == c && t[1] != 'n');
        } else {
            assert(e == seq![c]);
            assert(t.drop_first() == escape_text(tail) + rest);
        }
    }
}

proof fn lemma_text_list_front(vals: Seq<Seq<char>>)
    requires
        vals.len() >= 2,
    ensures
        text_list(vals) == escape_text(vals[0]) + seq![','] + text_list(vals.drop_first()),
    decreases vals.len(),
{
    let e0 = escape_text(vals[0]);
    let el = escape_text(vals.last());
    if vals.len() > 2 {
        let init = vals.drop_last();
        let rest = vals.drop_first();
        lemma_text_list_front(init);
        assert(init[0] == vals[0]);
        assert(init.drop_first() == rest.drop_last());
        assert(rest.last() == vals.last());
        assert(text_list(rest) == text_list(rest.drop_last()) + seq![','] + el);
        assert(text_list(init) == e0 + seq![','] + text_list(rest.drop_last()));
        assert(text_list(vals) == text_list(init) + seq![','] + el);
        let mid = text_list(rest.drop_last());
        assert(e0 + seq![','] + mid + seq![','] + el == e0 + seq![','] + (mid + seq![','] + el));
    } else {
        assert(vals.drop_last() == seq![vals[0]]);
        assert(vals.drop_first() == seq![vals[1]]);
        assert(text_list(seq![vals[0]]) == e0);
        assert(text_list(seq![vals[1]]) == escape_text(vals[1]));
    }
}

proof fn lemma_unescape_list_from(vals: Seq<Seq<char>>, cur: Seq<char>)
    requires
        vals.len() >= 1,
    ensures
        unescape_from(text_list(vals), cur) == seq![cur + vals[0]] + vals.drop_first(),
    decreases vals.len(),
{
    if vals.len() == 1 {
        lemma_unescape_escaped(vals[0], Seq::empty(), cur);
        assert(escape_text(vals[0]) + Seq::<char>::empty() == escape_text(vals[0]));
        assert(vals.drop_first() == Seq::<Seq<char>>::empty());
        assert(seq![cur + vals[0]] + Seq::<Seq<char>>::empty() == seq![cur + vals[0]]);
    } else {
        let rest = vals.drop_first();
        lemma_text_list_front(vals);
        let after = seq![','] + text_list(rest);
        assert(text_list(vals) == escape_text(vals[0]) + after);
        lemma_unescape_escaped(vals[0], after, cur);
        assert(after.drop_first() == text_list(rest));
        lemma_unescape_list_from(rest, Seq::empty());
        assert(Seq::<char>::empty() + rest[0] == rest[0]);
        assert(seq![rest[0]] + rest.drop_first() == rest);
        assert(seq![cur + vals[0]] + (seq![rest[0]] + rest.drop_first()) == seq![cur + vals[0]] + rest);
    }
}

proof fn lemma_escape_no_newline(s: Seq<char>)
    ensures
        !escape_text(s).contains('\n'),
    decreases s.len(),
{
    if s.len() > 0 {
        lemma_escape_no_newline(s.drop_last());
        let a = escape_text(s.drop_last());
        let b = escape_char(s.last());
        assert forall|i: int| 0 <= i < (a + b).len() implies (a + b)[i] != '\n' by {
            if i < a.len() {
                assert((a + b)[i] == a[i]);
            }
        }
    }
}

proof fn lemma_text_list_no_newline(vals: Seq<Seq<char>>)
    ensures
        !text_list(vals).contains('\n'),
    decreases vals.len(),
{
    if vals.len() == 1 {
        lemma_escape_no_newline(vals[0]);
    } else if vals.len() > 1 {
        lemma_text_list_no_newline(vals.drop_last());
        lemma_escape_no_newline(vals.last());
        let a = text_list(vals.drop_last());
        let b = seq![','] + escape_text(vals.last());
        assert(text_list(vals) == a + b);
        assert forall|i: int| 0 <= i < (a + b).len() implies (a + b)[i] != '\n' by {
            if i < a.len() {
                assert((a + b)[i] == a[i]);
            } else if i > a.len() {
                assert((a + b)[i] == escape_text(vals.last())[i - a.len() - 1]);
            }
        }
    }
}

/// A text property's value reads back as the values it was made from: its
/// commas that are not escaped separate the values, and undoing the
/// escapes gives each value; the value holds no raw newline.
pub proof fn lemma_text_list_reads_back(vals: Seq<Seq<char>>)
    requires
        vals.len() >= 1,
    ensures
        unescape_list(text_list(vals)) == vals,
        !text_list(vals).contains('\n'),
{
    lemma_unescape_list_from(vals, Seq::empty());
    assert(Seq::<char>::empty() + vals[0] == vals[0]);
    assert(seq![vals[0]] + vals.drop_first() == vals);
    lemma_text_list_no_newline(vals);
}

/// Parameter values joined by `","`: with the enclosing quotes, each value
/// stands quoted.
pub open spec fn quoted_list(vals: Seq<Seq<char>>) -> Seq<char>
    decreases vals.len(),
{
    if vals.len() == 0 {
        Seq::empty()
    } else if vals.len() == 1 {
        vals[0]
    } else {
        quoted_list(vals.drop_last()) + seq!['"', ',', '"'] + vals.last()
    }
}

/// A parameter as it follows the property name: `;NAME="v1","v2"`.
pub open spec fn param_text(p: ParamView) -> Seq<char> {
    seq![';'] + p.name + seq!['=', '"'] + quoted_list(p.values) + seq!['"']
}

/// Parameters, one after the other.
pub open spec fn params_text(ps: Seq<ParamView>) -> Seq<char>
    decreases ps.len(),
{
    if ps.len() == 0 {
        Seq::empty()
    } else {
        params_text(ps.drop_last()) + param_text(ps.last())
    }
}

/// A property's content line before folding: `NAME;PARAMS:value`.
pub open spec fn content_line(p: PropView) -> Seq<char> {
    p.name + params_text(p.params) + seq![':'] + p.value
}

/// A property as rendered: its content line, folded, then CRLF.
pub open spec fn prop_text(p: PropView) -> Seq<char> {
    fold(content_line(p)) + seq!['\r', '\n']
}

/// Properties, one after the other.
pub open spec fn props_text(ps: Seq<PropView>) -> Seq<char>
    decreases ps.len(),
{
    if ps.len() == 0 {
        Seq::empty()
    } else {
        props_text(ps.drop_last()) + prop_text(ps.last())
    }
}

/// `BEGIN:<name>` and CRLF.
pub open spec fn begin_line(name: Seq<char>) -> Seq<char> {
    seq!['B', 'E', 'G', 'I', 'N', ':'] + name + seq!['\r', '\n']
}

/// `END:<name>` and CRLF.
pub open spec fn end_line(name: Seq<char>) -> Seq<char> {
    seq!['E', 'N', 'D', ':'] + name + seq!['\r', '\n']
}

/// A component as rendered: its properties between `BEGIN` and `END` lines.
pub open spec fn component_text(c: ComponentView) -> Seq<char> {
    begin_line(c.name) + props_text(c.props) + end_line(c.name)
}

/// Components, one after the other.
pub open spec fn components_text(cs: Seq<ComponentView>) -> Seq<char>
    decreases cs.len(),
{
    if cs.len() == 0 {
        Seq::empty()
    } else {
        components_text(cs.drop_last()) + component_text(cs.last())
    }
}

/// The name of the calendar object.
pub open spec fn vcalendar() -> Seq<char> {
    seq!['V', 'C', 'A', 'L', 'E', 'N', 'D', 'A', 'R']
}

/// A calendar as rendered.
pub open spec fn calendar_text(c: CalendarView) -> Seq<char> {
    begin_line(vcalendar()) + props_text(c.props) + components_text(c.components) + end_line(
        vcalendar(),
    )
}

/// A date and time in the basic ISO 8601 form RFC 5545 uses:
/// `YYYYMMDDTHHMMSS`.
pub open spec fn date_time_text(c: CivilDateTime) -> Seq<char> {
    padded_signed(c.year as int, 4) + padded(c.month as nat, 2) + padded(c.day as nat, 2) + seq!['T']
        + padded(c.hour as nat, 2) + padded(c.minute as nat, 2) + padded(c.second as nat, 2)
}

/// Whether no value holds a double quote.
pub open spec fn unquoted(vals: Seq<Seq<char>>) -> bool {
    forall|i: int, j: int| 0 <= i < vals.len() && 0 <= j < vals[i].len() ==> #[trigger] vals[i][j] != '"'
}

// ---------------------------------------------------------------------------
// The model.

/// A property parameter: meta-information about a property or its value.
pub struct Param {
    name: &'static str,
    values: Vec<String>,
}

impl View for Param {
    type V = ParamView;

    closed spec fn view(&self) -> ParamView {
        ParamView { name: self.name@, values: self.values@.map_values(|v: String| v@) }
    }
}

impl Param {
    /// Creates a parameter. Values are always written quoted, so none may
    /// hold a double quote.
    pub fn new(name: &'static str, values: Vec<String>) -> (r: Self)
        requires
            unquoted(values@.map_values(|v: String| v@)),
        ensures
            r@ == (ParamView { name: name@, values: values@.map_values(|v: String| v@) }),
    {
        Param { name, values }
    }

    /// Appends this parameter's text: `;NAME="v1","v2"`.
    fn push_text(&self, out: &mut Vec<char>)
        ensures
            final(out)@ == old(out)@ + param_text(self@),
    {
        let ghost vals = self@.values;
        out.push(';');
        push_str(out, self.name);
        out.push('=');
        out.push('"');
        let ghost mid = out@;
        let mut i: usize = 0;
        while i < self.values.len()
            invariant
                i <= self.values.len(),
                vals == self.values@.map_values(|v: String| v@),
                out@ == mid + quoted_list(vals.take(i as int)),
            decreases self.values.len() - i,
        {
            assert(vals.take(i + 1).drop_last() == vals.take(i as int));
            if i > 0 {
                out.push('"');
                out.push(',');
                out.push('"');
            }
            push_str(out, self.values[i].as_str());
            i = i + 1;
            assert(out@ == mid + quoted_list(vals.take(i as int)));
        }
        assert(vals.take(i as int) == vals);
        out.push('"');
    }
}

/// A calendar property: a name, parameters and a value.
pub struct Prop {
    name: &'static str,
    params: Vec<Param>,
    value: String,
}

impl View for Prop {
    type V = PropView;

    closed spec fn view(&self) -> PropView {
        PropView {
            name: self.name@,
            params: self.params@.map_values(|p: Param| p@),
            value: self.value@,
        }
    }
}

/// Appends a content line, folded.
fn push_folded(out: &mut Vec<char>, line: &Vec<char>)
    ensures
        final(out)@ == old(out)@ + fold(line@),
{
    let ghost start = out@;
    let mut used: usize = 0;
    let mut i: usize = 0;
    assert(line@.skip(0) == line@);
    while i < line.len()
        invariant
            i <= line.len(),
            used <= MAX_LINE_LEN,
            start + fold(line@) == out@ + fold_from(line@.skip(i as int), used as int),
        decreases line.len() - i,
    {
        let c = line[i];
        let ghost rest = line@.skip(i as int);
        assert(rest[0] == c);
        assert(rest.drop_first() == line@.skip(i + 1));
        let code = c as u32;
        proof {
            char_is_scalar(c);
        }
        let n: usize = if code < 0x80 {
            1
        } else if code < 0x800 {
            2
        } else if code < 0x10000 {
            3
        } else {
            4
        };
        assert(n == utf8_len(c));
        if used + n > MAX_LINE_LEN {
            out.push('\r');
            out.push('\n');
            out.push(' ');
            used = 1 + n;
        } else {
            used = used + n;
        }
        out.push(c);
        i = i + 1;
    }
    assert(line@.skip(i as int) == Seq::<char>::empty());
}

impl Prop {
    /// Creates a property with a raw value.
    pub fn new(name: &'static str, value: &str) -> (r: Self)
        ensures
            r@ == (PropView { name: name@, params: Seq::empty(), value: value@ }),
    {
        let v = string_of(&chars_of(value));
        let r = Prop { name, params: Vec::new(), value: v };
        assert(r@.params == Seq::<ParamView>::empty());
        r
    }

    /// Creates a property whose value is the given texts, each escaped, joined
    /// by commas.
    pub fn text(name: &'static str, values: &[&str]) -> (r: Self)
        ensures
            r@ == (PropView {
                name: name@,
                params: Seq::empty(),
                value: text_list(values@.map_values(|v: &str| v@)),
            }),
    {
        let ghost vals = values@.map_values(|v: &str| v@);
        let mut out: Vec<char> = Vec::new();
        let mut i: usize = 0;
        while i < values.len()
            invariant
                i <= values@.len(),
                vals == values@.map_values(|v: &str| v@),
                out@ == text_list(vals.take(i as int)),
            decreases values@.len() - i,
        {
            assert(vals.take(i + 1).drop_last() == vals.take(i as int));
            if i > 0 {
                out.push(',');
            }
            push_escaped(&mut out, values[i]);
            i = i + 1;
        }
        assert(vals.take(i as int) == vals);
        let value = string_of(&out);
        let r = Prop { name, params: Vec::new(), value };
        assert(r@.params == Seq::<ParamView>::empty());
        r
    }

    /// Creates a property whose value is a date and time in its zone's wall
    /// clock, with a `TZID` parameter that names the zone by its global ID
    /// (a solidus, then the IANA name).
    pub fn date_time(name: &'static str, date_time: &ZonedDateTime) -> (r: Self)
        ensures
            r@ == date_time_prop(name@, *date_time),
    {
        let mut id: Vec<char> = Vec::new();
        id.push('/');
        push_str(&mut id, date_time.zone);
        let mut values: Vec<String> = Vec::new();
        values.push(string_of(&id));
        proof {
            reveal_strlit("TZID");
        }
        assert(values@.map_values(|v: String| v@) =~= seq![seq!['/'] + date_time.zone@]);
        let param = Param { name: "TZID", values };
        assert("TZID"@ =~= tzid());
        let ghost pv = param@;
        assert(pv == ParamView { name: tzid(), values: seq![seq!['/'] + date_time.zone@] });
        let mut params: Vec<Param> = Vec::new();
        params.push(param);
        assert(params@.map_values(|p: Param| p@) =~= seq![pv]);
        Prop { name, params, value: format_date_time(&date_time.local) }
    }

    /// The property's value.
    pub fn value(&self) -> (r: &String)
        ensures
            r@ == self@.value,
    {
        &self.value
    }

    /// The property's parameters.
    pub fn params(&self) -> (r: &Vec<Param>)
        ensures
            r@.map_values(|p: Param| p@) == self@.params,
    {
        &self.params
    }

    /// The property's parameters, for changing them.
    pub fn params_mut(&mut self) -> (r: &mut Vec<Param>)
        ensures
            r@.map_values(|p: Param| p@) == old(self)@.params,
            final(self)@ == (PropView { params: final(r)@.map_values(|p: Param| p@), ..old(self)@ }),
    {
        &mut self.params
    }

    /// Appends the rendered property: its content line, folded.
    fn push_text(&self, out: &mut Vec<char>)
        ensures
            final(out)@ == old(out)@ + prop_text(self@),
    {
        let ghost ps = self@.params;
        let mut line: Vec<char> = Vec::new();
        push_str(&mut line, self.name);
        let ghost head = line@;
        let mut i: usize = 0;
        while i < self.params.len()
            invariant
                i <= self.params.len(),
                ps == self.params@.map_values(|p: Param| p@),
                line@ == head + params_text(ps.take(i as int)),
            decreases self.params.len() - i,
        {
            assert(ps.take(i + 1).drop_last() == ps.take(i as int));
            self.params[i].push_text(&mut line);
            i = i + 1;
        }
        assert(ps.take(i as int) == ps);
        line.push(':');
        push_str(&mut line, self.value.as_str());
        assert(line@ == content_line(self@));
        let ghost start = out@;
        push_folded(out, &line);
        out.push('\r');
        out.push('\n');
        assert(out@ == start + prop_text(self@));
    }

    /// The rendered property.
    pub fn to_string(&self) -> (r: String)
        ensures
            r@ == prop_text(self@),
    {
        let mut out: Vec<char> = Vec::new();
        self.push_text(&mut out);
        string_of(&out)
    }
}

/// A named group of properties that expresses one calendar semantic (an
/// event, a to-do, ...).
pub struct Component {
    name: &'static str,
    props: Vec<Prop>,
}

impl View for Component {
    type V = ComponentView;

    closed spec fn view(&self) -> ComponentView {
        ComponentView { name: self.name@, props: self.props@.map_values(|p: Prop| p@) }
    }
}

/// Appends rendered properties, one after the other.
fn push_props(out: &mut Vec<char>, props: &Vec<Prop>)
    ensures
        final(out)@ == old(out)@ + props_text(props@.map_values(|p: Prop| p@)),
{
    let ghost ps = props@.map_values(|p: Prop| p@);
    let ghost start = out@;
    let mut i: usize = 0;
    while i < props.len()
        invariant
            i <= props.len(),
            ps == props@.map_values(|p: Prop| p@),
            out@ == start + props_text(ps.take(i as int)),
        decreases props.len() - i,
    {
        assert(ps.take(i + 1).drop_last() == ps.take(i as int));
        props[i].push_text(out);
        i = i + 1;
    }
    assert(ps.take(i as int) == ps);
}

/// Appends `BEGIN:<name>` or `END:<name>` with its CRLF.
fn push_delimiter(out: &mut Vec<char>, begin: bool, name: &str)
    ensures
        final(out)@ == old(out)@ + (if begin { begin_line(name@) } else { end_line(name@) }),
{
    let ghost start = out@;
    if begin {
        out.push('B');
        out.push('E');
        out.push('G');
        out.push('I');
        out.push('N');
    } else {
        out.push('E');
        out.push('N');
        out.push('D');
    }
    out.push(':');
    push_str(out, name);
    out.push('\r');
    out.push('\n');
    assert(out@ == start + (if begin { begin_line(name@) } else { end_line(name@) }));
}

impl Component {
    /// Creates a component.
    pub fn new(name: &'static str, props: Vec<Prop>) -> (r: Self)
        ensures
            r@ == (ComponentView { name: name@, props: props@.map_values(|p: Prop| p@) }),
    {
        Component { name, props }
    }

    /// The component's properties.
    pub fn props(&self) -> (r: &Vec<Prop>)
        ensures
            r@.map_values(|p: Prop| p@) == self@.props,
    {
        &self.props
    }

    /// The first property named `name`.
    pub fn first_prop(&self, name: &str) -> (r: Option<&Prop>)
        ensures
            match first_named(self@.props, name@) {
                Some(k) => r matches Some(p) && p@ == self@.props[k],
                None => r is None,
            },
    {
        let ghost ps = self@.props;
        let mut k: usize = 0;
        while k < self.props.len()
            invariant
                k <= self.props.len(),
                ps == self.props@.map_values(|p: Prop| p@),
                first_named(ps, name@) == first_named_from(ps, name@, k as int),
            decreases self.props.len() - k,
        {
            if str_eq(self.props[k].name, name) {
                return Some(&self.props[k]);
            }
            k = k + 1;
        }
        None
    }

    /// Whether some property is named `name`.
    pub fn has_prop(&self, name: &str) -> (r: bool)
        ensures
            r == (first_named(self@.props, name@) is Some),
    {
        self.first_prop(name).is_some()
    }

    /// Appends the rendered component.
    fn push_text(&self, out: &mut Vec<char>)
        ensures
            final(out)@ == old(out)@ + component_text(self@),
    {
        let ghost start = out@;
        push_delimiter(out, true, self.name);
        push_props(out, &self.props);
        push_delimiter(out, false, self.name);
        assert(out@ == start + component_text(self@));
    }

    /// The rendered component.
    pub fn to_string(&self) -> (r: String)
        ensures
            r@ == component_text(self@),
    {
        let mut out: Vec<char> = Vec::new();
        self.push_text(&mut out);
        string_of(&out)
    }
}

/// An iCalendar object: calendar-wide properties and at least one
/// component.
pub struct Calendar {
    props: Vec<Prop>,
    components: Vec<Component>,
}

impl View for Calendar {
    type V = CalendarView;

    closed spec fn view(&self) -> CalendarView {
        CalendarView {
            props: self.props@.map_values(|p: Prop| p@),
            components: self.components@.map_values(|c: Component| c@),
        }
    }
}

/// The name `PRODID`.
pub open spec fn prodid() -> Seq<char> {
    seq!['P', 'R', 'O', 'D', 'I', 'D']
}

/// The name `VERSION`.
pub open spec fn version() -> Seq<char> {
    seq!['V', 'E', 'R', 'S', 'I', 'O', 'N']
}

/// The calendar-wide properties: the product that made the object and the
/// specification version needed to read it.
pub open spec fn calendar_props(product: Seq<char>, spec_version: Seq<char>) -> Seq<PropView> {
    seq![
        PropView { name: prodid(), params: Seq::empty(), value: escape_text(product) },
        PropView { name: version(), params: Seq::empty(), value: escape_text(spec_version) },
    ]
}

impl Calendar {
    /// Creates a calendar, where `product` identifies the product that made
    /// it, `spec_version` is the highest iCalendar version needed to read
    /// it, and `components` is not empty.
    pub fn new(product: &str, spec_version: &str, components: Vec<Component>) -> (r: Self)
        requires
            components@.len() > 0,
        ensures
            r@ == (CalendarView {
                props: calendar_props(product@, spec_version@),
                components: components@.map_values(|c: Component| c@),
            }),
    {
        let product_prop = Prop::text("PRODID", &[product]);
        let version_prop = Prop::text("VERSION", &[spec_version]);
        proof {
            reveal_strlit("PRODID");
            reveal_strlit("VERSION");
            assert("PRODID"@ =~= prodid());
            assert("VERSION"@ =~= version());
            assert(seq![product].map_values(|v: &str| v@) =~= seq![product@]);
            assert(seq![spec_version].map_values(|v: &str| v@) =~= seq![spec_version@]);
            assert(text_list(seq![product@]) == escape_text(product@));
            assert(text_list(seq![spec_version@]) == escape_text(spec_version@));
        }
        let ghost v1 = product_prop@;
        let ghost v2 = version_prop@;
        let mut props: Vec<Prop> = Vec::new();
        props.push(product_prop);
        props.push(version_prop);
        assert(props@.map_values(|p: Prop| p@) =~= seq![v1, v2]);
        Calendar { props, components }
    }

    /// The calendar's components.
    pub fn components(&self) -> (r: &Vec<Component>)
        ensures
            r@.map_values(|c: Component| c@) == self@.components,
    {
        &self.components
    }

    /// The calendar's components, for changing them.
    pub fn components_mut(&mut self) -> (r: &mut Vec<Component>)
        ensures
            r@.map_values(|c: Component| c@) == old(self)@.components,
            final(self)@ == (CalendarView {
                components: final(r)@.map_values(|c: Component| c@),
                ..old(self)@
            }),
    {
        &mut self.components
    }

    /// The rendered calendar.
    pub fn to_string(&self) -> (r: String)
        ensures
            r@ == calendar_text(self@),
    {
        let ghost cs = self@.components;
        let mut out: Vec<char> = Vec::new();
        proof {
            reveal_strlit("VCALENDAR");
            assert("VCALENDAR"@ =~= vcalendar());
        }
        push_delimiter(&mut out, true, "VCALENDAR");
        push_props(&mut out, &self.props);
        let ghost mid = out@;
        let mut i: usize = 0;
        while i < self.components.len()
            invariant
                i <= self.components.len(),
                cs == self.components@.map_values(|c: Component| c@),
                out@ == mid + components_text(cs.take(i as int)),
            decreases self.components.len() - i,
        {
            assert(cs.take(i + 1).drop_last() == cs.take(i as int));
            self.components[i].push_text(&mut out);
            i = i + 1;
        }
        assert(cs.take(i as int) == cs);
        push_delimiter(&mut out, false, "VCALENDAR");
        string_of(&out)
    }
}

/// A date-time property: the wall-clock reading as the value, and a `TZID`
/// parameter naming the zone by its global ID (a solidus, then the IANA
/// name).
pub open spec fn date_time_prop(name: Seq<char>, dt: ZonedDateTime) -> PropView {
    PropView {
        name,
        params: seq![ParamView { name: tzid(), values: seq![seq!['/'] + dt.zone@] }],
        value: date_time_text(dt.local),
    }
}

/// The index of the first property named `name` at or after `k`.
pub open spec fn first_named_from(ps: Seq<PropView>, name: Seq<char>, k: int) -> Option<int>
    decreases ps.len() - k,
{
    if k < 0 || k >= ps.len() {
        None
    } else if ps[k].name == name {
        Some(k)
    } else {
        first_named_from(ps, name, k + 1)
    }
}

/// The index of the first property named `name`.
pub open spec fn first_named(ps: Seq<PropView>, name: Seq<char>) -> Option<int> {
    first_named_from(ps, name, 0)
}

/// The name `TZID`.
pub open spec fn tzid() -> Seq<char> {
    seq!['T', 'Z', 'I', 'D']
}

/// Appends `s`, escaped as a text value.
fn push_escaped(out: &mut Vec<char>, s: &str)
    ensures
        final(out)@ == old(out)@ + escape_text(s@),
{
    let cs = chars_of(s);
    let ghost start = out@;
    let mut i: usize = 0;
    while i < cs.len()
        invariant
            i <= cs.len(),
            cs@ == s@,
            out@ == start + escape_text(cs@.take(i as int)),
        decreases cs.len() - i,
    {
        let c = cs[i];
        assert(cs@.take(i + 1).drop_last() == cs@.take(i as int));
        if c == '\\' {
            out.push('\\');
            out.push('\\');
        } else if c == ';' {
            out.push('\\');
            out.push(';');
        } else if c == ',' {
            out.push('\\');
            out.push(',');
        } else if c == '\n' {
            out.push('\\');
            out.push('n');
        } else {
            out.push(c);
        }
        i = i + 1;
        assert(out@ == start + escape_text(cs@.take(i as int)));
    }
    assert(cs@.take(i as int) == cs@);
}

/// Formats a date and time as RFC 5545 writes it: `YYYYMMDDTHHMMSS`,
/// without separators or UTC offset.
pub fn format_date_time(c: &CivilDateTime) -> (r: String)
    ensures
        r@ == date_time_text(*c),
{
    let mut out: Vec<char> = Vec::new();
    push_date_time(&mut out, c);
    string_of(&out)
}

/// Appends a date and time as `YYYYMMDDTHHMMSS`.
pub fn push_date_time(out: &mut Vec<char>, c: &CivilDateTime)
    ensures
        final(out)@ == old(out)@ + date_time_text(*c),
{
    let ghost start = out@;
    push_padded_signed(out, c.year as i64, 4);
    push_padded(out, c.month as u64, 2);
    push_padded(out, c.day as u64, 2);
    out.push('T');
    push_padded(out, c.hour as u64, 2);
    push_padded(out, c.minute as u64, 2);
    push_padded(out, c.second as u64, 2);
    assert(out@ == start + date_time_text(*c));
}

} // verus!
