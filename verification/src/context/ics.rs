//! Meeting context from a local `.ics` calendar file.
//!
//! The event whose `DTSTART` lies closest to the session start, within
//! the match window, supplies the title (`SUMMARY`), the agenda
//! (`DESCRIPTION`) and the attendees (`ATTENDEE`). Recurring events are
//! not expanded: calendar exporters emit one `VEVENT` per occurrence.

use vstd::prelude::*;

use crate::context::MeetingContext;
use crate::paths::{eq_ignore_ascii_case, eq_ignore_case};
use crate::text::{
    chars_of, find, lemma_text_le_total, lemma_text_le_trans, push_range, push_str, starts_with,
    str_eq, string_from_chars, string_of_range, text_le, text_le_exec, trim, trim_bounds, views,
};

verus! {

/// One calendar property: its name, its parameters (each a name and its
/// values) and its value.
#[derive(Clone, Debug, PartialEq, Eq)]
pub struct CalProperty {
    pub name: String,
    pub params: Option<Vec<(String, Vec<String>)>>,
    pub value: Option<String>,
}

/// One `VEVENT`: its properties in file order.
#[derive(Clone, Debug, PartialEq, Eq)]
pub struct CalEvent {
    pub properties: Vec<CalProperty>,
}

/// The content of a property.
pub struct PropertyView {
    pub name: Seq<char>,
    pub params: Option<Seq<(Seq<char>, Seq<Seq<char>>)>>,
    pub value: Option<Seq<char>>,
}

/// A parameter's name and values, as text.
pub open spec fn param_view(p: (String, Vec<String>)) -> (Seq<char>, Seq<Seq<char>>) {
    (p.0@, views(p.1@))
}

impl View for CalProperty {
    type V = PropertyView;

    open spec fn view(&self) -> PropertyView {
        PropertyView {
            name: self.name@,
            params: match self.params {
                Some(ps) => Some(ps@.map_values(|p: (String, Vec<String>)| param_view(p))),
                None => None,
            },
            value: match self.value {
                Some(v) => Some(v@),
                None => None,
            },
        }
    }
}

impl View for CalEvent {
    type V = Seq<PropertyView>;

    open spec fn view(&self) -> Seq<PropertyView> {
        self.properties@.map_values(|p: CalProperty| p@)
    }
}

/// The events, in file order, of every calendar ical's parser reads from
/// `bytes` (calendars it fails on are skipped).
pub uninterp spec fn ical_events(bytes: Seq<u8>) -> Seq<Seq<PropertyView>>;

/// Parses `bytes` with ical's `IcalParser`, keeping the events of every
/// calendar it parses. Claims only that the result is ical's reading of
/// `bytes`.
#[verifier::external_body]
fn parse_ics_events(bytes: &[u8]) -> (r: Vec<CalEvent>)
    ensures
        r@.map_values(|e: CalEvent| e@) == ical_events(bytes@),
{
    ical::IcalParser::new(std::io::BufReader::new(bytes)).flatten().flat_map(|c| c.events).map(
        |e| CalEvent {
            properties: e.properties.into_iter().map(
                |p| CalProperty { name: p.name, params: p.params, value: p.value },
            ).collect(),
        },
    ).collect()
}

/// The UTC instant, in seconds since the epoch, that chrono's
/// `NaiveDateTime::parse_from_str(s, fmt)` reads from `s`, if it reads
/// one.
pub uninterp spec fn chrono_datetime_parse(s: Seq<char>, fmt: Seq<char>) -> Option<int>;

/// The UTC midnight, in seconds since the epoch, of the date chrono's
/// `NaiveDate::parse_from_str(s, fmt)` reads from `s`, if it reads one.
pub uninterp spec fn chrono_date_parse(s: Seq<char>, fmt: Seq<char>) -> Option<int>;

/// `NaiveDateTime::parse_from_str(s, fmt)`, read as UTC, in epoch
/// seconds. Claims only that the result is chrono's reading.
#[verifier::external_body]
fn parse_datetime_secs(s: &str, fmt: &str) -> (r: Option<i64>)
    ensures
        match r {
            Some(v) => chrono_datetime_parse(s@, fmt@) == Some(v as int),
            None => chrono_datetime_parse(s@, fmt@) is None,
        },
{
    chrono::NaiveDateTime::parse_from_str(s, fmt).ok().map(|dt| dt.and_utc().timestamp())
}

/// `NaiveDate::parse_from_str(s, fmt)` at midnight UTC, in epoch
/// seconds. Claims only that the result is chrono's reading.
#[verifier::external_body]
fn parse_date_secs(s: &str, fmt: &str) -> (r: Option<i64>)
    ensures
        match r {
            Some(v) => chrono_date_parse(s@, fmt@) == Some(v as int),
            None => chrono_date_parse(s@, fmt@) is None,
        },
{
    chrono::NaiveDate::parse_from_str(s, fmt).ok().map(
        |d| d.and_time(chrono::NaiveTime::MIN).and_utc().timestamp(),
    )
}


// ---------------------------------------------------------------------
// Dates
// ---------------------------------------------------------------------

/// The instant a `DTSTART` value names, in epoch seconds: UTC
/// `YYYYMMDDTHHMMSSZ`, floating `YYYYMMDDTHHMMSS` (read as UTC), or an
/// all-day `YYYYMMDD` (midnight UTC), after trimming whitespace.
pub open spec fn calendar_datetime(value: Seq<char>) -> Option<int> {
    let t = trim(value);
    match chrono_datetime_parse(t, "%Y%m%dT%H%M%SZ"@) {
        Some(v) => Some(v),
        None => match chrono_datetime_parse(t, "%Y%m%dT%H%M%S"@) {
            Some(v) => Some(v),
            None => chrono_date_parse(t, "%Y%m%d"@),
        },
    }
}

/// Reads a `DTSTART` / `DTEND` value (see `calendar_datetime`).
pub fn parse_calendar_datetime(value: &str) -> (r: Option<i64>)
    ensures
        match calendar_datetime(value@) {
            Some(v) => r == Some(v as i64) && v == r->0,
            None => r is None,
        },
{
    let cs = chars_of(value);
    let (a, b) = trim_bounds(&cs, 0, cs.len());
    proof {
        assert(cs@.subrange(0, cs@.len() as int) == cs@);
    }
    let t = string_of_range(&cs, a, b);
    match parse_datetime_secs(t.as_str(), "%Y%m%dT%H%M%SZ") {
        Some(v) => return Some(v),
        None => {},
    }
    match parse_datetime_secs(t.as_str(), "%Y%m%dT%H%M%S") {
        Some(v) => return Some(v),
        None => {},
    }
    parse_date_secs(t.as_str(), "%Y%m%d")
}

// ---------------------------------------------------------------------
// Properties
// ---------------------------------------------------------------------

/// Index of the first property named `name`.
pub open spec fn first_named(props: Seq<PropertyView>, name: Seq<char>) -> Option<int>
    decreases props.len(),
{
    if props.len() == 0 {
        None
    } else if props[0].name == name {
        Some(0)
    } else {
        match first_named(props.drop_first(), name) {
            Some(i) => Some(i + 1),
            None => None,
        }
    }
}

/// The value of the first property named `name` (none when that
/// property has no value, or there is no such property).
pub open spec fn property_value(props: Seq<PropertyView>, name: Seq<char>) -> Option<Seq<char>> {
    match first_named(props, name) {
        Some(i) => props[i].value,
        None => None,
    }
}

proof fn lemma_first_named(props: Seq<PropertyView>, name: Seq<char>)
    ensures
        match first_named(props, name) {
            Some(i) => 0 <= i < props.len() && props[i].name == name && forall|j: int|
                0 <= j < i ==> #[trigger] props[j].name != name,
            None => forall|j: int| 0 <= j < props.len() ==> #[trigger] props[j].name != name,
        },
    decreases props.len(),
{
    if props.len() > 0 && props[0].name != name {
        lemma_first_named(props.drop_first(), name);
        match first_named(props.drop_first(), name) {
            Some(i) => {
                assert forall|j: int| 0 <= j < i + 1 implies #[trigger] props[j].name != name by {
                    if j > 0 {
                        assert(props[j] == props.drop_first()[j - 1]);
                    }
                }
            },
            None => {
                assert forall|j: int| 0 <= j < props.len() implies #[trigger] props[j].name
                    != name by {
                    if j > 0 {
                        assert(props[j] == props.drop_first()[j - 1]);
                    }
                }
            },
        }
    }
}

fn clone_opt(s: &Option<String>) -> (r: Option<String>)
    ensures
        match s {
            Some(v) => r matches Some(w) && w@ == v@,
            None => r is None,
        },
{
    match s {
        Some(v) => Some(v.clone()),
        None => None,
    }
}

/// The value of the first property of `props` named `name`.
pub fn property_value_of(props: &Vec<CalProperty>, name: &str) -> (r: Option<String>)
    ensures
        match property_value(props@.map_values(|p: CalProperty| p@), name@) {
            Some(v) => r matches Some(w) && w@ == v,
            None => r is None,
        },
{
    let ghost pv = props@.map_values(|p: CalProperty| p@);
    proof {
        lemma_first_named(pv, name@);
    }
    let mut i: usize = 0;
    while i < props.len()
        invariant
            i <= props@.len(),
            pv == props@.map_values(|p: CalProperty| p@),
            forall|j: int| 0 <= j < i ==> #[trigger] pv[j].name != name@,
            match first_named(pv, name@) {
                Some(k) => 0 <= k < pv.len() && pv[k].name == name@ && forall|j: int|
                    0 <= j < k ==> #[trigger] pv[j].name != name@,
                None => forall|j: int| 0 <= j < pv.len() ==> #[trigger] pv[j].name != name@,
            },
        decreases props@.len() - i,
    {
        assert(pv[i as int] == props@[i as int]@);
        if str_eq(props[i].name.as_str(), name) {
            proof {
                assert(pv[i as int].name == name@);
                match first_named(pv, name@) {
                    Some(k) => {
                        if k < i {
                            assert(pv[k].name != name@);
                        } else if k > i {
                            assert(pv[i as int].name != name@);
                        }
                    },
                    None => {
                        assert(pv[i as int].name != name@);
                    },
                }
                assert(first_named(pv, name@) == Some(i as int));
            }
            return clone_opt(&props[i].value);
        }
        i = i + 1;
    }
    None
}


// ---------------------------------------------------------------------
// Attendees
// ---------------------------------------------------------------------

/// `s` without leading `'"'`s.
pub open spec fn strip_quotes_start(s: Seq<char>) -> Seq<char>
    decreases s.len(),
{
    if s.len() > 0 && s[0] == '"' {
        strip_quotes_start(s.drop_first())
    } else {
        s
    }
}

/// `s` without trailing `'"'`s.
pub open spec fn strip_quotes_end(s: Seq<char>) -> Seq<char>
    decreases s.len(),
{
    if s.len() > 0 && s.last() == '"' {
        strip_quotes_end(s.drop_last())
    } else {
        s
    }
}

/// A `CN` value without its surrounding quotes and whitespace.
pub open spec fn cleaned(s: Seq<char>) -> Seq<char> {
    trim(strip_quotes_end(strip_quotes_start(s)))
}

/// The first `CN` parameter (by name, ignoring ASCII case) whose first
/// value is not empty once cleaned: that cleaned value.
pub open spec fn cn_value(params: Seq<(Seq<char>, Seq<Seq<char>>)>) -> Option<Seq<char>>
    decreases params.len(),
{
    if params.len() == 0 {
        None
    } else if eq_ignore_ascii_case(params[0].0, "CN"@) && params[0].1.len() > 0 && cleaned(
        params[0].1[0],
    ).len() > 0 {
        Some(cleaned(params[0].1[0]))
    } else {
        cn_value(params.drop_first())
    }
}

/// The attendee an `ATTENDEE` property names: its `CN`, else the local
/// part of a `mailto:` address (the whole address when the local part is
/// empty or there is no `@`), else the raw value; none without a value.
pub open spec fn attendee_of(p: PropertyView) -> Option<Seq<char>> {
    let cn = match p.params {
        Some(ps) => cn_value(ps),
        None => None,
    };
    match cn {
        Some(c) => Some(c),
        None => match p.value {
            None => None,
            Some(v) => if starts_with(v, "mailto:"@) {
                let rest = v.subrange(7, v.len() as int);
                match find(rest, seq!['@']) {
                    Some(k) => if k > 0 {
                        Some(rest.subrange(0, k))
                    } else {
                        Some(rest)
                    },
                    None => Some(rest),
                }
            } else {
                Some(v)
            },
        },
    }
}

/// The characters of `cs[lo..hi]` without surrounding quotes and
/// whitespace.
fn cleaned_of(s: &str) -> (r: String)
    ensures
        r@ == cleaned(s@),
{
    let cs = chars_of(s);
    let hi = cs.len();
    let mut a: usize = 0;
    proof {
        assert(cs@.subrange(0, hi as int) == cs@);
    }
    while a < hi && cs[a] == '"'
        invariant
            a <= hi == cs@.len(),
            cs@ == s@,
            strip_quotes_start(s@) == strip_quotes_start(cs@.subrange(a as int, hi as int)),
        decreases hi - a,
    {
        assert(cs@.subrange(a as int, hi as int).drop_first() =~= cs@.subrange(a + 1, hi as int));
        a = a + 1;
    }
    let mut b: usize = hi;
    while b > a && cs[b - 1] == '"'
        invariant
            a <= b <= hi == cs@.len(),
            cs@ == s@,
            strip_quotes_start(s@) == cs@.subrange(a as int, hi as int),
            strip_quotes_end(strip_quotes_start(s@)) == strip_quotes_end(
                cs@.subrange(a as int, b as int),
            ),
        decreases b - a,
    {
        assert(cs@.subrange(a as int, b as int).drop_last() =~= cs@.subrange(a as int, b - 1));
        b = b - 1;
    }
    let (x, y) = trim_bounds(&cs, a, b);
    string_of_range(&cs, x, y)
}

/// The first `CN` value of `params` (see `cn_value`).
fn cn_of(params: &Vec<(String, Vec<String>)>) -> (r: Option<String>)
    ensures
        match cn_value(params@.map_values(|p: (String, Vec<String>)| param_view(p))) {
            Some(c) => r matches Some(w) && w@ == c,
            None => r is None,
        },
{
    let ghost pv = params@.map_values(|p: (String, Vec<String>)| param_view(p));
    let mut i: usize = 0;
    assert(pv.skip(0) =~= pv);
    while i < params.len()
        invariant
            i <= params@.len(),
            pv == params@.map_values(|p: (String, Vec<String>)| param_view(p)),
            cn_value(pv) == cn_value(pv.skip(i as int)),
        decreases params@.len() - i,
    {
        let ghost rest = pv.skip(i as int);
        assert(rest[0] == param_view(params@[i as int]));
        assert(rest.drop_first() =~= pv.skip(i + 1));
        let (name, values) = (&params[i].0, &params[i].1);
        if eq_ignore_case(name.as_str(), "CN") && values.len() > 0 {
            let c = cleaned_of(values[0].as_str());
            assert(views(values@)[0] == values@[0]@);
            if !str_eq(c.as_str(), "") {
                proof {
                    reveal_strlit("");
                    if c@.len() == 0 {
                        assert(c@ =~= ""@);
                    }
                }
                return Some(c);
            }
            proof {
                reveal_strlit("");
            }
        }
        i = i + 1;
    }
    proof {
        assert(pv.skip(i as int).len() == 0);
    }
    None
}

/// The attendee an `ATTENDEE` property names (see `attendee_of`).
pub fn extract_attendee(p: &CalProperty) -> (r: Option<String>)
    ensures
        match attendee_of(p@) {
            Some(a) => r matches Some(w) && w@ == a,
            None => r is None,
        },
{
    let cn = match &p.params {
        Some(ps) => cn_of(ps),
        None => None,
    };
    if let Some(c) = cn {
        return Some(c);
    }
    let v = match &p.value {
        Some(v) => v,
        None => {
            return None;
        },
    };
    let cs = chars_of(v.as_str());
    let mut prefix: Vec<char> = Vec::new();
    push_str(&mut prefix, "mailto:");
    proof {
        reveal_strlit("mailto:");
        assert(cs@.subrange(0, cs@.len() as int) == cs@);
    }
    if prefix.len() <= cs.len() && crate::text::matches_at_exec(&cs, 0, cs.len(), &prefix, 0) {
        let n = cs.len();
        let mut at: Vec<char> = Vec::new();
        at.push('@');
        let ghost rest = cs@.subrange(7, n as int);
        match crate::text::find_exec(&cs, 7, n, &at, 7) {
            Some(k) => {
                proof {
                    assert(at@ =~= seq!['@']);
                }
                if k > 7 {
                    return Some(string_of_range(&cs, 7, k));
                }
                Some(string_of_range(&cs, 7, n))
            },
            None => {
                proof {
                    assert(at@ =~= seq!['@']);
                }
                Some(string_of_range(&cs, 7, n))
            },
        }
    } else {
        Some(v.clone())
    }
}


/// `a` names an attendee of an event with properties `props`.
pub open spec fn is_attendee(props: Seq<PropertyView>, a: Seq<char>) -> bool {
    exists|i: int|
        0 <= i < props.len() && props[i].name == "ATTENDEE"@ && #[trigger] attendee_of(props[i])
            == Some(a)
}

/// Strictly increasing, so without repeats.
pub open spec fn strictly_sorted(v: Seq<Seq<char>>) -> bool {
    forall|i: int, j: int|
        0 <= i < j < v.len() ==> text_le(#[trigger] v[i], #[trigger] v[j]) && v[i] != v[j]
}

/// Adds `x` to the sorted, repeat-free `out` unless it is there.
fn insert_unique(out: &mut Vec<String>, x: String)
    requires
        strictly_sorted(views(old(out)@)),
    ensures
        strictly_sorted(views(final(out)@)),
        views(final(out)@).to_set() == views(old(out)@).to_set().insert(x@),
{
    let ghost before = views(out@);
    let mut p: usize = 0;
    while p < out.len() && !text_le_exec(x.as_str(), out[p].as_str())
        invariant
            p <= out@.len(),
            before == views(out@),
            forall|j: int| 0 <= j < p ==> !text_le(x@, #[trigger] before[j]),
        decreases out@.len() - p,
    {
        p = p + 1;
    }
    if p < out.len() && str_eq(out[p].as_str(), x.as_str()) {
        proof {
            assert(before[p as int] == x@);
            assert(before.to_set() =~= before.to_set().insert(x@)) by {
                assert(before.contains(x@));
            }
        }
        return;
    }
    proof {
        assert forall|j: int| 0 <= j < p implies text_le(#[trigger] before[j], x@) && before[j]
            != x@ by {
            lemma_text_le_total(x@, before[j]);
            crate::text::lemma_text_le_refl(x@);
        }
        if p < before.len() {
            assert(text_le(x@, before[p as int]));
            assert(before[p as int] != x@);
        }
        let after = before.insert(p as int, x@);
        assert forall|i: int, j: int| 0 <= i < j < after.len() implies text_le(
            #[trigger] after[i],
            #[trigger] after[j],
        ) && after[i] != after[j] by {
            if j == p {
                assert(after[i] == before[i]);
            } else if i == p {
                assert(after[j] == before[j - 1]);
                if j - 1 > p {
                    lemma_text_le_trans(x@, before[p as int], before[j - 1]);
                    if x@ == before[j - 1] {
                        crate::text::lemma_text_le_antisym(before[p as int], before[j - 1]);
                    }
                }
            } else if i < p && j > p {
                assert(after[i] == before[i]);
                assert(after[j] == before[j - 1]);
                if j - 1 > p {
                    lemma_text_le_trans(x@, before[p as int], before[j - 1]);
                }
                lemma_text_le_trans(before[i], x@, before[j - 1]);
                if before[i] == before[j - 1] {
                    crate::text::lemma_text_le_antisym(before[i], x@);
                }
            } else if j < p {
                assert(after[i] == before[i] && after[j] == before[j]);
            } else {
                assert(after[i] == before[i - 1] && after[j] == before[j - 1]);
            }
        }
    }
    let ghost xv = x@;
    out.insert(p, x);
    proof {
        assert(before == views(old(out)@));
        assert(views(out@) =~= before.insert(p as int, xv));
        assert forall|a: Seq<char>| #[trigger] views(out@).contains(a) <==> (before.contains(a) || a == xv) by {
            let after = views(out@);
            if after.contains(a) {
                let k = choose|k: int| 0 <= k < after.len() && after[k] == a;
                if k < p {
                    assert(before[k] == a);
                } else if k > p {
                    assert(before[k - 1] == a);
                }
            }
            if before.contains(a) {
                let k = choose|k: int| 0 <= k < before.len() && before[k] == a;
                if k < p {
                    assert(after[k] == a);
                } else {
                    assert(after[k + 1] == a);
                }
            }
            if a == xv {
                assert(after[p as int] == a);
            }
        }
        assert(views(out@).to_set() =~= before.to_set().insert(xv));
    }
}

/// `c` is the context the event with properties `e` supplies: its
/// `SUMMARY` as the title, its `DESCRIPTION` as the agenda, and its
/// attendees sorted without repeats; nothing else.
pub open spec fn is_context_of(c: MeetingContext, e: Seq<PropertyView>) -> bool {
    &&& match property_value(e, "SUMMARY"@) {
        Some(t) => c.title matches Some(ct) && ct@ == t,
        None => c.title is None,
    }
    &&& match property_value(e, "DESCRIPTION"@) {
        Some(d) => c.agenda matches Some(cd) && cd@ == d,
        None => c.agenda is None,
    }
    &&& strictly_sorted(views(c.attendees@))
    &&& forall|a: Seq<char>| views(c.attendees@).contains(a) <==> is_attendee(e, a)
    &&& c.prior_notes@.len() == 0
    &&& c.language is None
    &&& c.extra@.len() == 0
}

/// The meeting context an event supplies: its `SUMMARY` as the title,
/// its `DESCRIPTION` as the agenda, and its attendees sorted without
/// repeats.
pub fn build_context(event: &CalEvent) -> (c: MeetingContext)
    ensures
        is_context_of(c, event@),
{
    let title = property_value_of(&event.properties, "SUMMARY");
    let agenda = property_value_of(&event.properties, "DESCRIPTION");
    let ghost pv = event@;
    let mut attendees: Vec<String> = Vec::new();
    let mut i: usize = 0;
    while i < event.properties.len()
        invariant
            i <= event.properties@.len(),
            pv == event@,
            strictly_sorted(views(attendees@)),
            forall|a: Seq<char>| views(attendees@).contains(a) <==> (exists|k: int|
                0 <= k < i && pv[k].name == "ATTENDEE"@ && #[trigger] attendee_of(pv[k]) == Some(a)),
        decreases event.properties@.len() - i,
    {
        let p = &event.properties[i];
        assert(pv[i as int] == p@);
        let ghost old_att = views(attendees@);
        if str_eq(p.name.as_str(), "ATTENDEE") {
            match extract_attendee(p) {
                Some(a) => {
                    let ghost av = a@;
                    insert_unique(&mut attendees, a);
                    assert forall|x: Seq<char>| views(attendees@).contains(x) <==> (exists|k: int|
                        0 <= k < i + 1 && pv[k].name == "ATTENDEE"@ && #[trigger] attendee_of(pv[k])
                            == Some(x)) by {
                        assert(views(attendees@).to_set().contains(x) == views(attendees@).contains(x));
                        assert(old_att.to_set().contains(x) == old_att.contains(x));
                        if x == av {
                            assert(attendee_of(pv[i as int]) == Some(x));
                        }
                        if exists|k: int|
                            0 <= k < i + 1 && pv[k].name == "ATTENDEE"@ && #[trigger] attendee_of(
                                pv[k],
                            ) == Some(x) {
                            let k = choose|k: int|
                                0 <= k < i + 1 && pv[k].name == "ATTENDEE"@ && #[trigger] attendee_of(
                                    pv[k],
                                ) == Some(x);
                            if k < i {
                                assert(old_att.contains(x));
                            }
                        }
                    }
                },
                None => {
                    assert forall|x: Seq<char>| views(attendees@).contains(x) <==> (exists|k: int|
                        0 <= k < i + 1 && pv[k].name == "ATTENDEE"@ && #[trigger] attendee_of(pv[k])
                            == Some(x)) by {
                        if exists|k: int|
                            0 <= k < i + 1 && pv[k].name == "ATTENDEE"@ && #[trigger] attendee_of(
                                pv[k],
                            ) == Some(x) {
                            let k = choose|k: int|
                                0 <= k < i + 1 && pv[k].name == "ATTENDEE"@ && #[trigger] attendee_of(
                                    pv[k],
                                ) == Some(x);
                            if k < i {
                                assert(old_att.contains(x));
                            }
                        }
                    }
                },
            }
        } else {
            assert forall|x: Seq<char>| views(attendees@).contains(x) <==> (exists|k: int|
                0 <= k < i + 1 && pv[k].name == "ATTENDEE"@ && #[trigger] attendee_of(pv[k]) == Some(
                    x,
                )) by {
                if exists|k: int|
                    0 <= k < i + 1 && pv[k].name == "ATTENDEE"@ && #[trigger] attendee_of(pv[k])
                        == Some(x) {
                    let k = choose|k: int|
                        0 <= k < i + 1 && pv[k].name == "ATTENDEE"@ && #[trigger] attendee_of(pv[k])
                            == Some(x);
                    if k < i {
                        assert(old_att.contains(x));
                    }
                }
            }
        }
        i = i + 1;
    }
    MeetingContext {
        title,
        attendees,
        agenda,
        prior_notes: Vec::new(),
        language: None,
        extra: Vec::new(),
    }
}


// ---------------------------------------------------------------------
// Matching an event to the session
// ---------------------------------------------------------------------

/// Symmetric window around the session start: an event matches when its
/// `DTSTART` is within `half_window_secs` of it.
#[derive(Clone, Copy, Debug, PartialEq, Eq)]
pub struct MatchWindow {
    pub half_window_secs: u64,
}

impl Default for MatchWindow {
    /// 15 minutes either side.
    fn default() -> (w: Self)
        ensures
            w.half_window_secs == 900,
    {
        MatchWindow { half_window_secs: 900 }
    }
}

/// Where the calendar is and how close an event must start.
#[derive(Clone, Debug, PartialEq, Eq)]
pub struct IcsFileConfig {
    pub path: String,
    pub match_window: MatchWindow,
}

/// The start of an event, in epoch seconds, when its first `DTSTART`
/// has a value that reads as a date.
pub open spec fn event_start(e: Seq<PropertyView>) -> Option<int> {
    match property_value(e, "DTSTART"@) {
        Some(v) => calendar_datetime(v),
        None => None,
    }
}

/// Whole seconds between an event starting at `start_s` (epoch seconds)
/// and a session started at `started_ms` (epoch milliseconds), either
/// way round.
pub open spec fn delta_secs(start_s: int, started_ms: int) -> int {
    let d = start_s * 1000 - started_ms;
    (if d < 0 {
        -d
    } else {
        d
    }) / 1000
}

/// How far an event lies from the session start, when it matches the
/// window.
pub open spec fn match_delta(e: Seq<PropertyView>, started_ms: int, half: u64) -> Option<int> {
    let h: int = if half <= i64::MAX {
        half as int
    } else {
        i64::MAX as int
    };
    match event_start(e) {
        Some(s) => if delta_secs(s, started_ms) <= h {
            Some(delta_secs(s, started_ms))
        } else {
            None
        },
        None => None,
    }
}

/// Event `i` of `events` is the one the session takes its context from:
/// it matches, no event lies closer, and no earlier one is as close.
pub open spec fn is_best_match(events: Seq<Seq<PropertyView>>, i: int, started_ms: int, half: u64) -> bool {
    &&& 0 <= i < events.len()
    &&& match_delta(events[i], started_ms, half) is Some
    &&& forall|j: int|
        0 <= j < events.len() ==> (#[trigger] match_delta(events[j], started_ms, half) matches Some(
            dj,
        ) ==> match_delta(events[i], started_ms, half)->0 <= dj)
    &&& forall|j: int|
        0 <= j < i ==> (#[trigger] match_delta(events[j], started_ms, half) matches Some(dj) ==> dj
            > match_delta(events[i], started_ms, half)->0)
}

/// Picks the event closest to the session start within the window (the
/// first of equally close ones) and returns the context it supplies;
/// `None` when no event matches.
pub fn best_match(events: &Vec<CalEvent>, started_at_ms: i64, window: MatchWindow) -> (r: Option<
    MeetingContext,
>)
    ensures
        ({
            let ev = events@.map_values(|e: CalEvent| e@);
            let half = window.half_window_secs;
            match r {
                None => forall|j: int|
                    0 <= j < ev.len() ==> #[trigger] match_delta(ev[j], started_at_ms as int, half)
                        is None,
                Some(c) => exists|i: int|
                    is_best_match(ev, i, started_at_ms as int, half) && is_context_of(c, ev[i]),
            }
        }),
{
    let ghost ev = events@.map_values(|e: CalEvent| e@);
    let half: i128 = if window.half_window_secs <= i64::MAX as u64 {
        window.half_window_secs as i128
    } else {
        i64::MAX as i128
    };
    let mut best: Option<(i128, usize)> = None;
    let mut i: usize = 0;
    while i < events.len()
        invariant
            i <= events@.len(),
            ev == events@.map_values(|e: CalEvent| e@),
            half == (if window.half_window_secs <= i64::MAX {
                window.half_window_secs as int
            } else {
                i64::MAX as int
            }),
            match best {
                None => forall|j: int|
                    0 <= j < i ==> #[trigger] match_delta(ev[j], started_at_ms as int, window.half_window_secs) is None,
                Some((d, k)) => {
                    &&& k < i
                    &&& match_delta(ev[k as int], started_at_ms as int, window.half_window_secs) == Some(d as int)
                    &&& forall|j: int|
                        0 <= j < i ==> (#[trigger] match_delta(ev[j], started_at_ms as int, window.half_window_secs) matches Some(dj) ==> d <= dj)
                    &&& forall|j: int|
                        0 <= j < k ==> (#[trigger] match_delta(ev[j], started_at_ms as int, window.half_window_secs) matches Some(dj) ==> dj > d)
                },
            },
        decreases events@.len() - i,
    {
        assert(ev[i as int] == events@[i as int]@);
        let dtstart = property_value_of(&events[i].properties, "DTSTART");
        let start = match dtstart {
            Some(v) => parse_calendar_datetime(v.as_str()),
            None => None,
        };
        match start {
            Some(s) => {
                let diff: i128 = (s as i128) * 1000 - (started_at_ms as i128);
                let delta: i128 = (if diff < 0 {
                    -diff
                } else {
                    diff
                }) / 1000;
                assert(delta == delta_secs(s as int, started_at_ms as int));
                if delta <= half {
                    match best {
                        Some((bd, _)) => {
                            if delta < bd {
                                best = Some((delta, i));
                            }
                        },
                        None => {
                            best = Some((delta, i));
                        },
                    }
                }
            },
            None => {},
        }
        i = i + 1;
    }
    match best {
        Some((_, k)) => {
            let c = build_context(&events[k]);
            assert(ev[k as int] == events@[k as int]@);
            assert(is_best_match(ev, k as int, started_at_ms as int, window.half_window_secs));
            Some(c)
        },
        None => None,
    }
}

/// The context of the event in the calendar `bytes` closest to a session
/// started at `started_at_ms`, within `window` (see `best_match`).
pub fn scan_for_match(bytes: &[u8], started_at_ms: i64, window: MatchWindow) -> (r: Option<
    MeetingContext,
>)
    ensures
        ({
            let ev = ical_events(bytes@);
            let half = window.half_window_secs;
            match r {
                None => forall|j: int|
                    0 <= j < ev.len() ==> #[trigger] match_delta(ev[j], started_at_ms as int, half)
                        is None,
                Some(c) => exists|i: int|
                    is_best_match(ev, i, started_at_ms as int, half) && is_context_of(c, ev[i]),
            }
        }),
{
    let events = parse_ics_events(bytes);
    best_match(&events, started_at_ms, window)
}

/// Calendar-context source reading one `.ics` file.
#[derive(Clone, Debug, PartialEq, Eq)]
pub struct IcsFileProvider {
    config: IcsFileConfig,
}

impl IcsFileProvider {
    pub closed spec fn config_view(&self) -> IcsFileConfig {
        self.config
    }

    /// A provider over `config`; the file is read only when context is
    /// asked for.
    pub fn new(config: IcsFileConfig) -> (p: Self)
        ensures
            p.config_view() == config,
    {
        IcsFileProvider { config }
    }

    /// Where the calendar is.
    pub fn path(&self) -> (s: &str)
        ensures
            s@ == self.config_view().path@,
    {
        self.config.path.as_str()
    }

    /// The context for a session started at `started_at_ms` from the
    /// calendar's bytes: the best-matching event's, or the empty context
    /// when no event matches.
    pub fn context_from_bytes(&self, bytes: &[u8], started_at_ms: i64) -> (c: MeetingContext)
        ensures
            ({
                let ev = ical_events(bytes@);
                let half = self.config_view().match_window.half_window_secs;
                ||| (exists|i: int|
                    is_best_match(ev, i, started_at_ms as int, half) && is_context_of(c, ev[i]))
                ||| (c.is_empty_spec() && forall|j: int|
                    0 <= j < ev.len() ==> #[trigger] match_delta(ev[j], started_at_ms as int, half)
                        is None)
            }),
    {
        match scan_for_match(bytes, started_at_ms, self.config.match_window) {
            Some(c) => c,
            None => MeetingContext::default(),
        }
    }
}

} // verus!
