//! To-do items of a CalDAV calendar.

use super::{label, labelled, CALDAV_ICON};
use crate::error::{ErrorKind, SourceError, SourceErrorView};
use crate::fields::{can_start, startable};
use crate::tasks::{
    collect, item_outcome, lemma_collect_fails, query_outcome, task_views, ItemOutcome,
    QueryOutcome, Task, TaskView,
};
use crate::text::{pair_views, push_char, str_eq};
use crate::time::{
    calendar_date, earliest_instant, midnight, midnight_of, parse_calendar_date,
    parse_wall_clock, parse_zoned, pick_earliest, resolve_local, wall_clock_time, zoned_time,
    DateError, LocalTime, Timestamp, WallClock,
};
use vstd::prelude::*;
use vstd::std_specs::iter::IteratorSpec;
use vstd::string::*;

verus! {

/// The configuration of one calendar of a CalDAV server as a source of
/// tasks.
#[derive(Debug)]
pub struct CalDavSource {
    /// The name of the calendar, which is the name of the source too.
    pub calendar_name: String,
    pub username: String,
    /// The password as the user entered it, on its way to where secrets
    /// are kept. No query reads it.
    pub password: String,
    /// The address of the server.
    pub base_url: String,
}

impl Clone for CalDavSource {
    fn clone(&self) -> (r: CalDavSource)
        ensures
            r == *self,
    {
        CalDavSource {
            calendar_name: self.calendar_name.clone(),
            username: self.username.clone(),
            password: self.password.clone(),
            base_url: self.base_url.clone(),
        }
    }
}

impl Default for CalDavSource {
    fn default() -> (r: CalDavSource)
        ensures
            r.calendar_name@ == Seq::<char>::empty(),
            r.username@ == Seq::<char>::empty(),
            r.password@ == Seq::<char>::empty(),
            r.base_url@ == Seq::<char>::empty(),
    {
        CalDavSource {
            calendar_name: String::new(),
            username: String::new(),
            password: String::new(),
            base_url: String::new(),
        }
    }
}

/// The format of a date and time without zone.
pub const DATE_TIME_FORMAT: &'static str = "%Y%m%dT%H%M%S";

/// The format of a date and time with its zone.
pub const DATE_TIME_FORMAT_WITH_TZ: &'static str = "%Y%m%dT%H%M%S%#z";

/// The format of a date without time.
pub const DATE_FORMAT: &'static str = "%Y%m%d";

/// The character that a backslash and `c` stand for together, if any.
pub open spec fn escaped_char(c: char) -> Option<char> {
    if c == '\\' || c == '"' || c == '\'' || c == '`' || c == '$' || c == ',' {
        Some(c)
    } else if c == 'n' {
        Some('\n')
    } else if c == 'r' {
        Some('\r')
    } else if c == 't' {
        Some('\t')
    } else {
        None
    }
}

/// A text with its escape sequences replaced: a backslash before one of
/// `\ " ' `` ` `` $ ,` gives that character, before `n`, `r` or `t` a
/// newline, carriage return or tab; any other backslash stays, and so
/// does what follows it.
pub open spec fn unescaped(s: Seq<char>) -> Seq<char>
    decreases s.len(),
{
    if s.len() == 0 {
        s
    } else if s[0] == '\\' && s.len() >= 2 && escaped_char(s[1]) is Some {
        seq![escaped_char(s[1])->0] + unescaped(s.skip(2))
    } else {
        seq![s[0]] + unescaped(s.skip(1))
    }
}

/// Whether a text holds no escape sequence: no backslash in front of a
/// character that it would stand for together with it.
pub open spec fn escape_free(s: Seq<char>) -> bool {
    forall|i: int|
        0 <= i < s.len() - 1 && #[trigger] s[i] == '\\' ==> escaped_char(s[i + 1]) is None
}

/// Text without escape sequences is left as it is.
pub proof fn law_unescape_keeps_escape_free(s: Seq<char>)
    requires
        escape_free(s),
    ensures
        unescaped(s) == s,
    decreases s.len(),
{
    if s.len() > 0 {
        let rest = s.skip(1);
        assert(escape_free(rest));
        law_unescape_keeps_escape_free(rest);
    }
}

/// On text without escape sequences, replacing them twice is the same as
/// once.
pub proof fn law_unescape_idempotent_on_escape_free(s: Seq<char>)
    requires
        escape_free(s),
    ensures
        unescaped(unescaped(s)) == unescaped(s),
{
    law_unescape_keeps_escape_free(s);
}

fn escape_target(c: char) -> (r: Option<char>)
    ensures
        r == escaped_char(c),
{
    if c == '\\' || c == '"' || c == '\'' || c == '`' || c == '$' || c == ',' {
        Some(c)
    } else if c == 'n' {
        Some('\n')
    } else if c == 'r' {
        Some('\r')
    } else if c == 't' {
        Some('\t')
    } else {
        None
    }
}

/// Replaces the escape sequences of a text. See `unescaped`.
pub fn unescape(val: &str) -> (r: String)
    ensures
        r@ == unescaped(val@),
{
    let mut chars = val.chars();
    let mut out = String::new();
    let mut pending = false;
    let ghost mut n: int = 0;
    assert(val@.skip(0) =~= val@);
    loop
        invariant_except_break
            0 <= n <= val@.len(),
            chars.obeys_prophetic_iter_laws(),
            chars.remaining() == val@.skip(n),
            unescaped(val@) == out@ + unescaped(
                if pending {
                    seq!['\\'] + val@.skip(n)
                } else {
                    val@.skip(n)
                },
            ),
        ensures
            out@ == unescaped(val@),
        decreases val@.len() - n,
    {
        let ghost rest = val@.skip(n);
        match chars.next() {
            None => {
                if pending {
                    // A backslash at the end of the text stands for itself.
                    push_char(&mut out, '\\');
                    assert(unescaped((seq!['\\'] + rest).skip(1)) =~= Seq::<char>::empty());
                }
                break ;
            },
            Some(c) => {
                let target = if pending {
                    escape_target(c)
                } else {
                    None
                };
                proof {
                    assert(rest.skip(1) =~= val@.skip(n + 1));
                    if pending {
                        let s = seq!['\\'] + rest;
                        assert(s.skip(2) =~= val@.skip(n + 1));
                        assert(s.skip(1) =~= rest);
                    }
                }
                match target {
                    Some(t) => {
                        push_char(&mut out, t);
                        pending = false;
                    },
                    None => {
                        if pending {
                            push_char(&mut out, '\\');
                        }
                        if c == '\\' {
                            pending = true;
                            assert(seq!['\\'] + val@.skip(n + 1) =~= rest);
                        } else {
                            pending = false;
                            push_char(&mut out, c);
                            assert(unescaped(rest) =~= seq![c] + unescaped(val@.skip(n + 1)));
                        }
                    },
                }
                proof {
                    n = n + 1;
                }
            },
        }
    }
    out
}

/// What the text of a date denotes before the time zone of the machine
/// comes in.
#[derive(Clone, Copy, Debug, PartialEq, Eq, Structural)]
pub enum DateReading {
    /// An instant: the text names its zone.
    Instant(Timestamp),
    /// A reading of the local clock: the text names no zone.
    Local(WallClock),
    /// No date.
    Unreadable,
}

/// What the local clock makes of the dates of one to-do item.
#[derive(Clone, Copy, Debug, PartialEq, Eq, Structural)]
pub struct LocalTimes {
    pub start: LocalTime,
    pub due: LocalTime,
    pub created: LocalTime,
}

/// What a text denotes as a date: a date and time with its zone is an
/// instant; where the text ends before a zone, a date and time without
/// zone, or else a date alone, taken at midnight, is a reading of the
/// local clock; anything else is no date.
pub open spec fn caldav_reading(text: Seq<char>) -> DateReading {
    match zoned_time(text, DATE_TIME_FORMAT_WITH_TZ@) {
        Ok(t) => DateReading::Instant(t),
        Err(DateError::Malformed) => DateReading::Unreadable,
        Err(DateError::TooShort) => match wall_clock_time(text, DATE_TIME_FORMAT@) {
            Ok(reading) => DateReading::Local(reading),
            Err(DateError::Malformed) => DateReading::Unreadable,
            Err(DateError::TooShort) => match calendar_date(text, DATE_FORMAT@) {
                Ok(day) => DateReading::Local(midnight_of(day)),
                Err(_) => DateReading::Unreadable,
            },
        },
    }
}

/// The failure for a text that is no date.
pub open spec fn unreadable_caldav_date(text: Seq<char>) -> SourceErrorView {
    SourceErrorView {
        kind: ErrorKind::Parse,
        message: "Could not parse CalDAV date '"@ + text + "'"@,
    }
}

/// The failure for a text that is no date.
pub fn unreadable_caldav_date_error(text: &str) -> (e: SourceError)
    ensures
        e@ == unreadable_caldav_date(text@),
{
    let mut message = "Could not parse CalDAV date '".to_owned();
    message.append(text);
    message.append("'");
    SourceError::new(ErrorKind::Parse, message)
}

/// The failure for a reading of the local clock that the clock never shows.
pub open spec fn no_such_local_time(text: Seq<char>) -> SourceErrorView {
    SourceErrorView {
        kind: ErrorKind::Parse,
        message: "The local time '"@ + text + "' does not exist"@,
    }
}

/// The instant that a date denotes, where `local` is what the local clock
/// makes of its reading: the earlier instant where the clock shows the
/// reading twice, a failure where it never shows it.
pub open spec fn placed(text: Seq<char>, reading: DateReading, local: LocalTime) -> Result<
    Timestamp,
    SourceErrorView,
> {
    match reading {
        DateReading::Instant(t) => Ok(t),
        DateReading::Unreadable => Err(unreadable_caldav_date(text)),
        DateReading::Local(_) => match earliest_instant(local) {
            Some(t) => Ok(t),
            None => Err(no_such_local_time(text)),
        },
    }
}

/// The contents of an instant or the failure to give one.
pub open spec fn instant_outcome(r: Result<Timestamp, SourceError>) -> Result<
    Timestamp,
    SourceErrorView,
> {
    match r {
        Ok(t) => Ok(t),
        Err(e) => Err(e@),
    }
}

/// Reads the text of a date as far as the text alone decides. See
/// `caldav_reading`.
pub fn read_caldav_date(data: &str) -> (r: DateReading)
    ensures
        r == caldav_reading(data@),
{
    match parse_zoned(data, DATE_TIME_FORMAT_WITH_TZ) {
        Ok(t) => DateReading::Instant(t),
        Err(DateError::Malformed) => DateReading::Unreadable,
        Err(DateError::TooShort) => match parse_wall_clock(data, DATE_TIME_FORMAT) {
            Ok(reading) => DateReading::Local(reading),
            Err(DateError::Malformed) => DateReading::Unreadable,
            Err(DateError::TooShort) => match parse_calendar_date(data, DATE_FORMAT) {
                Ok(day) => DateReading::Local(midnight(day)),
                Err(_) => DateReading::Unreadable,
            },
        },
    }
}

/// The instant that a date denotes, given its reading and what the local
/// clock makes of it. See `placed`.
pub fn place_caldav_date(data: &str, reading: DateReading, local: LocalTime) -> (r: Result<
    Timestamp,
    SourceError,
>)
    ensures
        instant_outcome(r) == placed(data@, reading, local),
{
    match reading {
        DateReading::Instant(t) => Ok(t),
        DateReading::Unreadable => Err(unreadable_caldav_date_error(data)),
        DateReading::Local(_) => match pick_earliest(local) {
            Some(t) => Ok(t),
            None => {
                let mut message = "The local time '".to_owned();
                message.append(data);
                message.append("' does not exist");
                Err(SourceError::new(ErrorKind::Parse, message))
            },
        },
    }
}

/// Whether `local` can be what the local clock makes of a date: for a
/// reading of the local clock, instants at which a clock in some time
/// zone shows that reading; for any other date, `Missing`.
pub open spec fn fits(reading: DateReading, local: LocalTime) -> bool {
    match reading {
        DateReading::Local(reading) => reading.resolves_to(local),
        _ => local == LocalTime::Missing,
    }
}

/// What the local clock of this machine makes of a reading; `Missing`
/// for a date that is no reading of the local clock. Of a reading of the
/// local clock the time zone of the machine decides, within the day
/// before and the day after the reading.
fn local_time_of(reading: DateReading) -> (r: LocalTime)
    ensures
        fits(reading, r),
{
    match reading {
        DateReading::Local(reading) => resolve_local(reading),
        _ => LocalTime::Missing,
    }
}

/// Reads a date. A text that names its zone gives the instant it names;
/// a text without zone is taken as a reading of the local clock of this
/// machine, which decides on the instant: one within the day before and
/// the day after the reading, and the earlier of two. See
/// `caldav_reading` and `placed`.
pub fn parse_caldav_date(data: &str) -> (r: Result<Timestamp, SourceError>)
    ensures
        caldav_reading(data@) matches DateReading::Local(reading) ==> (r matches Ok(t)
            ==> reading.shown_at(t)),
        exists|local: LocalTime|
            fits(caldav_reading(data@), local) && instant_outcome(r) == #[trigger] placed(
                data@,
                caldav_reading(data@),
                local,
            ),
{
    let reading = read_caldav_date(data);
    let local = local_time_of(reading);
    place_caldav_date(data, reading, local)
}

/// The value of the last property of that name, if any.
pub open spec fn property_value(props: Seq<(Seq<char>, Seq<char>)>, name: Seq<char>) -> Option<
    Seq<char>,
>
    decreases props.len(),
{
    if props.len() == 0 {
        None
    } else if props.last().0 == name {
        Some(props.last().1)
    } else {
        property_value(props.drop_last(), name)
    }
}

/// Whether an item counts as completed: its status says so, or it has a
/// date of completion.
pub open spec fn is_completed(props: Seq<(Seq<char>, Seq<char>)>) -> bool {
    property_value(props, "STATUS"@) == Some("COMPLETED"@) || property_value(
        props,
        "COMPLETED"@,
    ) is Some
}

/// The date in a property, where `local` is what the local clock makes
/// of its reading: none where the item has no such property.
pub open spec fn dated_property(
    props: Seq<(Seq<char>, Seq<char>)>,
    name: Seq<char>,
    local: LocalTime,
) -> Result<Option<Timestamp>, SourceErrorView> {
    match property_value(props, name) {
        None => Ok(None),
        Some(text) => match placed(text, caldav_reading(text), local) {
            Ok(t) => Ok(Some(t)),
            Err(e) => Err(e),
        },
    }
}

/// The task that an item stands for once no start date holds it back:
/// none where it is completed or has no summary; a failure where its due
/// date or else its date of creation cannot be read.
pub open spec fn shown_task(
    calendar: Seq<char>,
    props: Seq<(Seq<char>, Seq<char>)>,
    locals: LocalTimes,
) -> ItemOutcome {
    if is_completed(props) {
        Ok(None)
    } else {
        match property_value(props, "SUMMARY"@) {
            None => Ok(None),
            Some(summary) => match (
                dated_property(props, "DUE"@, locals.due),
                dated_property(props, "CREATED"@, locals.created),
            ) {
                (Err(e), _) => Err(e),
                (_, Err(e)) => Err(e),
                (Ok(due), Ok(created)) => Ok(
                    Some(
                        TaskView {
                            project: labelled(CALDAV_ICON@, calendar),
                            title: unescaped(summary),
                            description: match property_value(props, "DESCRIPTION"@) {
                                Some(description) => unescaped(description),
                                None => Seq::empty(),
                            },
                            due,
                            created,
                            id: property_value(props, "UID"@),
                        },
                    ),
                ),
            },
        }
    }
}

/// The task that an item stands for at `now`: a failure where its start
/// date cannot be read, none while its start date lies in the future,
/// and else what `shown_task` says.
pub open spec fn todo_task(
    calendar: Seq<char>,
    props: Seq<(Seq<char>, Seq<char>)>,
    now: Timestamp,
    locals: LocalTimes,
) -> ItemOutcome {
    match dated_property(props, "DTSTART"@, locals.start) {
        Err(e) => Err(e),
        Ok(start) => if !startable(start, now) {
            Ok(None)
        } else {
            shown_task(calendar, props, locals)
        },
    }
}

/// An item with a date of completion gives no task, whatever its status.
pub proof fn law_completed_items_are_left_out(
    calendar: Seq<char>,
    props: Seq<(Seq<char>, Seq<char>)>,
    now: Timestamp,
    locals: LocalTimes,
)
    requires
        property_value(props, "COMPLETED"@) is Some,
    ensures
        !(todo_task(calendar, props, now, locals) matches Ok(Some(_))),
{
}

/// An item is left out while its start date lies in the future, and from
/// the start date on it gives what it would give without one.
pub proof fn law_start_date_holds_back(
    calendar: Seq<char>,
    props: Seq<(Seq<char>, Seq<char>)>,
    start: Timestamp,
    now: Timestamp,
    locals: LocalTimes,
)
    requires
        dated_property(props, "DTSTART"@, locals.start) == Ok::<Option<Timestamp>, SourceErrorView>(
            Some(start),
        ),
    ensures
        now.before(start) ==> todo_task(calendar, props, now, locals) == Ok::<
            Option<TaskView>,
            SourceErrorView,
        >(None),
        !now.before(start) ==> todo_task(calendar, props, now, locals) == shown_task(
            calendar,
            props,
            locals,
        ),
{
}

/// The value of the last property of that name, if any.
pub fn property<'a>(props: &'a Vec<(String, String)>, name: &str) -> (r: Option<&'a str>)
    ensures
        match r {
            Some(value) => property_value(pair_views(props@), name@) == Some(value@),
            None => property_value(pair_views(props@), name@) is None,
        },
{
    let ghost views = pair_views(props@);
    let mut i: usize = props.len();
    assert(views.take(i as int) =~= views);
    while i > 0
        invariant
            i <= props.len(),
            views == pair_views(props@),
            property_value(views, name@) == property_value(views.take(i as int), name@),
        decreases i,
    {
        let ghost upto = views.take(i as int);
        assert(upto.drop_last() =~= views.take(i as int - 1));
        if str_eq(props[i - 1].0.as_str(), name) {
            return Some(props[i - 1].1.as_str());
        }
        i = i - 1;
    }
    None
}

fn read_property_date(props: &Vec<(String, String)>, name: &str, local: LocalTime) -> (r: Result<
    Option<Timestamp>,
    SourceError,
>)
    ensures
        crate::fields::agrees(r, dated_property(pair_views(props@), name@, local)),
{
    match property(props, name) {
        None => Ok(None),
        Some(text) => match place_caldav_date(text, read_caldav_date(text), local) {
            Ok(t) => Ok(Some(t)),
            Err(e) => Err(e),
        },
    }
}

/// Whether `local` can be what the local clock makes of the date in a
/// property: `Missing` where the item has no such property, and else
/// what fits the reading of its text.
pub open spec fn fits_property(
    props: Seq<(Seq<char>, Seq<char>)>,
    name: Seq<char>,
    local: LocalTime,
) -> bool {
    match property_value(props, name) {
        None => local == LocalTime::Missing,
        Some(text) => fits(caldav_reading(text), local),
    }
}

/// Whether `locals` can be what the local clock makes of the dates of an
/// item.
pub open spec fn fit_item(props: Seq<(Seq<char>, Seq<char>)>, locals: LocalTimes) -> bool {
    &&& fits_property(props, "DTSTART"@, locals.start)
    &&& fits_property(props, "DUE"@, locals.due)
    &&& fits_property(props, "CREATED"@, locals.created)
}

/// What the local clock of this machine makes of the date in a
/// property; `Missing` where the item has no such property, and where its
/// text is no reading of the local clock.
fn local_time_of_property(props: &Vec<(String, String)>, name: &str) -> (r: LocalTime)
    ensures
        fits_property(pair_views(props@), name@, r),
{
    match property(props, name) {
        None => LocalTime::Missing,
        Some(text) => local_time_of(read_caldav_date(text)),
    }
}

impl CalDavSource {
    /// Whether a calendar of the server is the one to read: the one with
    /// exactly the configured name.
    pub fn selects(&self, calendar: &str) -> (r: bool)
        ensures
            r == (calendar@ == self.calendar_name@),
    {
        str_eq(calendar, self.calendar_name.as_str())
    }

    /// The task that a to-do item stands for at `now`, where `locals` is
    /// what the local clock makes of its dates. See `todo_task`.
    pub fn task_from_todo(
        &self,
        props: &Vec<(String, String)>,
        now: Timestamp,
        locals: LocalTimes,
    ) -> (r: Result<Option<Task>, SourceError>)
        ensures
            item_outcome(r) == todo_task(self.calendar_name@, pair_views(props@), now, locals),
    {
        let completed = match property(props, "STATUS") {
            Some(status) => str_eq(status, "COMPLETED"),
            None => false,
        } || property(props, "COMPLETED").is_some();
        let start = read_property_date(props, "DTSTART", locals.start)?;
        if completed || !can_start(&start, &now) {
            return Ok(None);
        }
        match property(props, "SUMMARY") {
            None => Ok(None),
            Some(summary) => {
                let title = unescape(summary);
                let description = match property(props, "DESCRIPTION") {
                    Some(description) => unescape(description),
                    None => String::new(),
                };
                let due = read_property_date(props, "DUE", locals.due)?;
                let created = read_property_date(props, "CREATED", locals.created)?;
                let id = match property(props, "UID") {
                    Some(uid) => Some(uid.to_owned()),
                    None => None,
                };
                Ok(
                    Some(
                        Task {
                            project: label(CALDAV_ICON, self.calendar_name.as_str()),
                            title,
                            description,
                            due,
                            created,
                            id,
                        },
                    ),
                )
            },
        }
    }

    /// The task that a to-do item stands for at `now`. The local clock of
    /// this machine decides on dates without zone. See `todo_task`.
    pub fn read_todo(&self, props: &Vec<(String, String)>, now: Timestamp) -> (r: Result<
        Option<Task>,
        SourceError,
    >)
        ensures
            exists|locals: LocalTimes|
                fit_item(pair_views(props@), locals) && item_outcome(r) == #[trigger] todo_task(
                    self.calendar_name@,
                    pair_views(props@),
                    now,
                    locals,
                ),
    {
        let locals = LocalTimes {
            start: local_time_of_property(props, "DTSTART"),
            due: local_time_of_property(props, "DUE"),
            created: local_time_of_property(props, "CREATED"),
        };
        self.task_from_todo(props, now, locals)
    }
}

/// The properties of a list of to-do items.
pub open spec fn todo_views(todos: Seq<Vec<(String, String)>>) -> Seq<Seq<(Seq<char>, Seq<char>)>> {
    Seq::new(todos.len(), |i: int| pair_views(todos[i]@))
}

/// What each item of a calendar gives at `now`, where `locals` holds for
/// each item what the local clock makes of its dates.
pub open spec fn todo_outcomes(
    calendar: Seq<char>,
    todos: Seq<Seq<(Seq<char>, Seq<char>)>>,
    now: Timestamp,
    locals: Seq<LocalTimes>,
) -> Seq<ItemOutcome> {
    Seq::new(todos.len(), |i: int| todo_task(calendar, todos[i], now, locals[i]))
}

/// The tasks of the items of a calendar at `now`, in the order of the
/// items.
pub open spec fn calendar_tasks(
    calendar: Seq<char>,
    todos: Seq<Seq<(Seq<char>, Seq<char>)>>,
    now: Timestamp,
    locals: Seq<LocalTimes>,
) -> QueryOutcome {
    collect(todo_outcomes(calendar, todos, now, locals))
}

/// Whether `locals` holds for each item what the local clock can make of
/// its dates.
pub open spec fn fit_calendar(
    todos: Seq<Seq<(Seq<char>, Seq<char>)>>,
    locals: Seq<LocalTimes>,
) -> bool {
    &&& locals.len() == todos.len()
    &&& forall|i: int| 0 <= i < todos.len() ==> fit_item(todos[i], #[trigger] locals[i])
}

impl CalDavSource {
    /// The tasks of the to-do items of the calendar at `now`, each item
    /// given by its properties as names with values. The query ends with
    /// the failure of the first item that cannot be read. The local
    /// clock of this machine decides on dates without zone. See
    /// `todo_task`.
    pub fn query_tasks(&self, todos: &Vec<Vec<(String, String)>>, now: Timestamp) -> (r: Result<
        Vec<Task>,
        SourceError,
    >)
        ensures
            exists|locals: Seq<LocalTimes>|
                fit_calendar(todo_views(todos@), locals) && query_outcome(r)
                    == #[trigger] calendar_tasks(
                    self.calendar_name@,
                    todo_views(todos@),
                    now,
                    locals,
                ),
    {
        let mut result: Vec<Task> = Vec::new();
        let ghost views = todo_views(todos@);
        let ghost mut locals: Seq<LocalTimes> = Seq::empty();
        let mut i: usize = 0;
        proof {
            assert(task_views(result@) =~= Seq::empty());
        }
        while i < todos.len()
            invariant
                i <= todos.len(),
                views == todo_views(todos@),
                locals.len() == i,
                fit_calendar(views.take(i as int), locals),
                collect(todo_outcomes(self.calendar_name@, views.take(i as int), now, locals)) == Ok::<
                    Seq<TaskView>,
                    SourceErrorView,
                >(task_views(result@)),
            decreases todos.len() - i,
        {
            let outcome = self.read_todo(&todos[i], now);
            let ghost before = task_views(result@);
            let ghost local = choose|local: LocalTimes|
                fit_item(pair_views(todos@[i as int]@), local) && item_outcome(outcome)
                    == #[trigger] todo_task(
                    self.calendar_name@,
                    pair_views(todos@[i as int]@),
                    now,
                    local,
                );
            let ghost done = todo_outcomes(self.calendar_name@, views.take(i as int), now, locals);
            let ghost next = todo_outcomes(
                self.calendar_name@,
                views.take(i as int + 1),
                now,
                locals.push(local),
            );
            proof {
                assert(next.drop_last() =~= done);
            }
            match outcome {
                Err(e) => {
                    proof {
                        let unasked = LocalTimes {
                            start: LocalTime::Missing,
                            due: LocalTime::Missing,
                            created: LocalTime::Missing,
                        };
                        let all = Seq::new(
                            todos@.len(),
                            |j: int|
                                if j < i {
                                    locals[j]
                                } else if j == i {
                                    local
                                } else {
                                    unasked
                                },
                        );
                        assert(fit_calendar(views, all)) by {
                            assert forall|j: int| 0 <= j < views.len() implies fit_item(
                                views[j],
                                #[trigger] all[j],
                            ) by {
                                if j < i {
                                    assert(views.take(i as int)[j] == views[j]);
                                }
                            }
                        }
                        let outcomes = todo_outcomes(self.calendar_name@, views, now, all);
                        assert(outcomes.take(i as int) =~= done);
                        lemma_collect_fails(outcomes, i as int);
                        assert(query_outcome(Err::<Vec<Task>, SourceError>(e)) == calendar_tasks(
                            self.calendar_name@,
                            todo_views(todos@),
                            now,
                            all,
                        ));
                    }
                    return Err(e);
                },
                Ok(Some(task)) => {
                    result.push(task);
                    assert(task_views(result@) =~= before.push(task@));
                },
                Ok(None) => {},
            }
            proof {
                assert forall|j: int| 0 <= j < i + 1 implies fit_item(
                    views.take(i as int + 1)[j],
                    #[trigger] locals.push(local)[j],
                ) by {
                    if j < i {
                        assert(views.take(i as int)[j] == views[j]);
                    }
                }
                locals = locals.push(local);
            }
            i = i + 1;
        }
        proof {
            assert(views.take(i as int) =~= views);
            assert(query_outcome(Ok::<Vec<Task>, SourceError>(result)) == calendar_tasks(
                self.calendar_name@,
                todo_views(todos@),
                now,
                locals,
            ));
        }
        Ok(result)
    }
}

/// The failure of the `url` crate's parser.
#[verifier::external_type_specification]
#[verifier::external_body]
pub struct ExUrlParseError(url::ParseError);

/// What `url::Url::parse` makes of a text: the address as the URL writes
/// it, or nothing where the text is no absolute URL.
pub uninterp spec fn absolute_url(text: Seq<char>) -> Option<Seq<char>>;

/// Calls `url::Url::parse` and hands the URL out as its text. Trusted:
/// whether the text is accepted, and what the URL then reads, depends on
/// the text alone.
#[verifier::external_body]
fn parse_url(text: &str) -> (r: Result<String, url::ParseError>)
    ensures
        match r {
            Ok(address) => absolute_url(text@) == Some(address@),
            Err(_) => absolute_url(text@) is None,
        },
{
    url::Url::parse(text).map(String::from)
}

/// The failure for a server address that is no absolute URL.
pub open spec fn malformed_address(text: Seq<char>) -> SourceErrorView {
    SourceErrorView {
        kind: ErrorKind::Configuration,
        message: "The address '"@ + text + "' is not an absolute URL"@,
    }
}

impl CalDavSource {
    /// The address of the server, as the URL that the configured address
    /// denotes writes it. Fails, with a `Configuration` error, exactly
    /// where the configured address is no absolute URL.
    pub fn base(&self) -> (r: Result<String, SourceError>)
        ensures
            match r {
                Ok(address) => absolute_url(self.base_url@) == Some(address@),
                Err(e) => absolute_url(self.base_url@) is None && e@ == malformed_address(
                    self.base_url@,
                ),
            },
    {
        match parse_url(self.base_url.as_str()) {
            Ok(address) => Ok(address),
            Err(_) => {
                let mut message = "The address '".to_owned();
                message.append(self.base_url.as_str());
                message.append("' is not an absolute URL");
                Err(SourceError::new(ErrorKind::Configuration, message))
            },
        }
    }
}

} // verus!
