//! The schedule entry model: timestamps at minute resolution, durations,
//! priorities, execution modes, field validation with a closed error
//! taxonomy, and the one-line text codec.

use vstd::prelude::*;
use crate::digits::{
    all_digits, dec_digits, dec_string, digit_char, digit_str, digits_val, parse_nat, parse_u64,
    push_dec_digits,
};
use crate::text::{no_space, split_sp, split_spaces};

verus! {

/// A calendar date, held as plain year, month and day numbers.
#[derive(Clone, Copy, Debug, PartialEq, Eq, Structural)]
pub struct Date {
    pub year: u16,
    pub month: u8,
    pub day: u8,
}

/// A time of day at minute resolution.
#[derive(Clone, Copy, Debug, PartialEq, Eq, Structural)]
pub struct Time {
    pub hour: u8,
    pub minute: u8,
}

/// An absolute UTC instant at minute resolution.
#[derive(Clone, Copy, Debug, PartialEq, Eq, Structural)]
pub struct Timestamp {
    pub date: Date,
    pub time: Time,
}

/// Execution class of a schedule entry.
#[derive(Clone, Copy, Debug, PartialEq, Eq, Structural)]
pub enum SchedulingMode {
    Common,
    Discretionary,
    Special,
}

/// Duration of a schedule entry: open-ended, or a whole number of minutes.
#[derive(Clone, Copy, Debug, PartialEq, Eq, Structural)]
pub enum ScdDuration {
    Infinite,
    Finite(u64),
}

/// The closed set of entry-construction errors, each carrying a message
/// that names the offending value.
#[derive(Clone, Debug, PartialEq)]
pub enum ScheduleError {
    InvalidDate(String),
    InvalidTime(String),
    InvalidDuration(String),
    InvalidPriority(String),
    InvalidTask(String),
    InvalidMode(String),
    InvalidKwargs(String),
    MissingFields,
}

/// Mathematical model of a `ScheduleError`: the same variants over
/// character sequences.
pub enum ErrorView {
    InvalidDate(Seq<char>),
    InvalidTime(Seq<char>),
    InvalidDuration(Seq<char>),
    InvalidPriority(Seq<char>),
    InvalidTask(Seq<char>),
    InvalidMode(Seq<char>),
    InvalidKwargs(Seq<char>),
    MissingFields,
}

impl View for ScheduleError {
    type V = ErrorView;

    open spec fn view(&self) -> ErrorView {
        match self {
            ScheduleError::InvalidDate(s) => ErrorView::InvalidDate(s@),
            ScheduleError::InvalidTime(s) => ErrorView::InvalidTime(s@),
            ScheduleError::InvalidDuration(s) => ErrorView::InvalidDuration(s@),
            ScheduleError::InvalidPriority(s) => ErrorView::InvalidPriority(s@),
            ScheduleError::InvalidTask(s) => ErrorView::InvalidTask(s@),
            ScheduleError::InvalidMode(s) => ErrorView::InvalidMode(s@),
            ScheduleError::InvalidKwargs(s) => ErrorView::InvalidKwargs(s@),
            ScheduleError::MissingFields => ErrorView::MissingFields,
        }
    }
}

impl ScheduleError {
    /// The human-readable message carried by the error.
    pub fn to_string(&self) -> (r: String)
        ensures
            r@ == self@.msg(),
    {
        match self {
            ScheduleError::InvalidDate(s) => s.clone(),
            ScheduleError::InvalidTime(s) => s.clone(),
            ScheduleError::InvalidDuration(s) => s.clone(),
            ScheduleError::InvalidPriority(s) => s.clone(),
            ScheduleError::InvalidTask(s) => s.clone(),
            ScheduleError::InvalidMode(s) => s.clone(),
            ScheduleError::InvalidKwargs(s) => s.clone(),
            ScheduleError::MissingFields => "Missing fields".to_owned(),
        }
    }
}

impl ErrorView {
    /// The message of the modelled error.
    pub open spec fn msg(self) -> Seq<char> {
        match self {
            ErrorView::InvalidDate(s) => s,
            ErrorView::InvalidTime(s) => s,
            ErrorView::InvalidDuration(s) => s,
            ErrorView::InvalidPriority(s) => s,
            ErrorView::InvalidTask(s) => s,
            ErrorView::InvalidMode(s) => s,
            ErrorView::InvalidKwargs(s) => s,
            ErrorView::MissingFields => "Missing fields"@,
        }
    }
}

/// One scheduled task activation.
#[derive(Clone, Debug, PartialEq)]
pub struct ScheduleLine {
    pub timestamp: Timestamp,
    pub duration: ScdDuration,
    pub priority: u8,
    pub experiment: String,
    pub scheduling_mode: SchedulingMode,
    pub kwargs: Vec<String>,
}

/// Mathematical model of a `ScheduleLine`.
pub struct LineView {
    pub timestamp: Timestamp,
    pub duration: ScdDuration,
    pub priority: u8,
    pub experiment: Seq<char>,
    pub scheduling_mode: SchedulingMode,
    pub kwargs: Seq<Seq<char>>,
}

impl View for ScheduleLine {
    type V = LineView;

    open spec fn view(&self) -> LineView {
        LineView {
            timestamp: self.timestamp,
            duration: self.duration,
            priority: self.priority,
            experiment: self.experiment@,
            scheduling_mode: self.scheduling_mode,
            kwargs: self.kwargs.deep_view(),
        }
    }
}

impl core::default::Default for SchedulingMode {
    fn default() -> (r: Self)
        ensures
            r == SchedulingMode::Common,
    {
        SchedulingMode::Common
    }
}

/// Whether `y` is a leap year of the proleptic Gregorian calendar.
pub open spec fn leap_year(y: int) -> bool {
    (y % 4 == 0 && y % 100 != 0) || y % 400 == 0
}

/// Number of days of month `m` of year `y` in the proleptic Gregorian
/// calendar.
pub open spec fn days_in_month(y: int, m: int) -> int {
    if m == 2 {
        if leap_year(y) {
            29
        } else {
            28
        }
    } else if m == 4 || m == 6 || m == 9 || m == 11 {
        30
    } else {
        31
    }
}

/// Whether the date exists in the proleptic Gregorian calendar.
pub open spec fn date_in_calendar(d: Date) -> bool {
    1 <= d.month <= 12 && 1 <= d.day <= days_in_month(d.year as int, d.month as int)
}

/// Whether the date lies in the supported year window.
pub open spec fn date_in_range(d: Date) -> bool {
    2000 <= d.year <= 2050
}

/// Whether hour and minute are a time of day.
pub open spec fn time_valid(t: Time) -> bool {
    t.hour <= 23 && t.minute <= 59
}

/// Whether the timestamp satisfies every invariant: the year window, the
/// calendar, and the time of day.
pub open spec fn timestamp_valid(ts: Timestamp) -> bool {
    date_in_range(ts.date) && date_in_calendar(ts.date) && time_valid(ts.time)
}

/// Whether a token may stand as a field of an encoded line: non-empty and
/// free of spaces.
pub open spec fn token_ok(t: Seq<char>) -> bool {
    t.len() >= 1 && no_space(t)
}

/// Index of the first token unfit for encoding, or -1 if every token fits.
pub open spec fn first_bad_token(ts: Seq<Seq<char>>) -> int
    decreases ts.len(),
{
    if ts.len() == 0 {
        -1
    } else if !token_ok(ts[0]) {
        0
    } else {
        let r = first_bad_token(ts.drop_first());
        if r < 0 {
            -1
        } else {
            r + 1
        }
    }
}

pub proof fn lemma_first_bad_token_none(ts: Seq<Seq<char>>)
    requires
        forall|i: int| 0 <= i < ts.len() ==> token_ok(#[trigger] ts[i]),
    ensures
        first_bad_token(ts) == -1,
    decreases ts.len(),
{
    if ts.len() > 0 {
        assert(forall|i: int|
            0 <= i < ts.drop_first().len() ==> #[trigger] ts.drop_first()[i] == ts[i + 1]);
        lemma_first_bad_token_none(ts.drop_first());
    }
}

pub proof fn lemma_first_bad_token_at(ts: Seq<Seq<char>>, k: int)
    requires
        0 <= k < ts.len(),
        !token_ok(ts[k]),
        forall|i: int| 0 <= i < k ==> token_ok(#[trigger] ts[i]),
    ensures
        first_bad_token(ts) == k,
    decreases ts.len(),
{
    if k > 0 {
        let t = ts.drop_first();
        assert(t[k - 1] == ts[k]);
        assert(forall|i: int| 0 <= i < k - 1 ==> #[trigger] t[i] == ts[i + 1]);
        lemma_first_bad_token_at(t, k - 1);
    }
}

/// Whether every value of the entry satisfies the construction invariants.
pub open spec fn valid_line(v: LineView) -> bool {
    &&& timestamp_valid(v.timestamp)
    &&& (v.duration is Infinite ==> v.priority == 0)
    &&& (v.duration matches ScdDuration::Finite(m) ==> m >= 1)
    &&& v.priority <= 20
    &&& token_ok(v.experiment)
    &&& (forall|i: int| 0 <= i < v.kwargs.len() ==> token_ok(#[trigger] v.kwargs[i]))
}

pub open spec fn msg_bad_date(t: Seq<char>) -> Seq<char> {
    "Expected YYYYMMDD, got "@ + t
}

pub open spec fn msg_bad_time(t: Seq<char>) -> Seq<char> {
    "Expected HH:MM, got "@ + t
}

pub open spec fn msg_bad_duration(t: Seq<char>) -> Seq<char> {
    "Expected minutes > 0, got "@ + t
}

pub open spec fn msg_prio_over(t: Seq<char>) -> Seq<char> {
    t + " > 20"@
}

pub open spec fn msg_year_range(y: nat) -> Seq<char> {
    "Bad year: "@ + dec_digits(y) + " not in range [2000, 2050]"@
}

pub open spec fn msg_month_range(m: nat) -> Seq<char> {
    "Bad month: "@ + dec_digits(m) + " not in range [1, 12]"@
}

pub open spec fn msg_day_range(d: nat) -> Seq<char> {
    "Bad day: "@ + dec_digits(d) + " not in range [1, 31]"@
}

pub open spec fn msg_hour_range(h: nat) -> Seq<char> {
    "Bad hour: "@ + dec_digits(h) + " not in range [0, 23]"@
}

pub open spec fn msg_minute_range(m: nat) -> Seq<char> {
    "Bad minute: "@ + dec_digits(m) + " not in range [0, 59]"@
}

pub open spec fn msg_no_such_date(y: nat, m: nat, d: nat) -> Seq<char> {
    "No such date: "@ + dec_digits(y) + "-"@ + dec_digits(m) + "-"@ + dec_digits(d)
}

pub open spec fn msg_infinite_priority() -> Seq<char> {
    "Cannot have priority > 0 for infinite schedule line"@
}

pub open spec fn msg_nonpositive_duration(m: nat) -> Seq<char> {
    "Expected positive duration, got "@ + dec_digits(m)
}

pub open spec fn msg_bad_task(t: Seq<char>) -> Seq<char> {
    "Bad task: "@ + t
}

pub open spec fn msg_bad_kwarg(t: Seq<char>) -> Seq<char> {
    "Bad kwarg: "@ + t
}

/// Builds `prefix`, then `mid`, then `suffix` as one string.
pub fn concat3(prefix: &str, mid: &str, suffix: &str) -> (r: String)
    ensures
        r@ == prefix@ + mid@ + suffix@,
{
    let mut s = prefix.to_owned();
    s.append(mid);
    s.append(suffix);
    s
}

/// Builds `prefix`, then `tail` as one string.
pub fn concat2(prefix: &str, tail: &str) -> (r: String)
    ensures
        r@ == prefix@ + tail@,
{
    let mut s = prefix.to_owned();
    s.append(tail);
    s
}

/// The construction invariants, applied in a fixed fail-fast order: year
/// window, month range, day range, hour, minute, calendar combination,
/// the duration rules, the priority range, the task token, then each
/// kwarg token. The first violated rule's error is returned.
pub open spec fn spec_validate(
    ts: Timestamp,
    dur: ScdDuration,
    prio: u8,
    task: Seq<char>,
    mode: SchedulingMode,
    kwargs: Seq<Seq<char>>,
) -> Result<LineView, ErrorView> {
    if !(2000 <= ts.date.year <= 2050) {
        Err(ErrorView::InvalidDate(msg_year_range(ts.date.year as nat)))
    } else if !(1 <= ts.date.month <= 12) {
        Err(ErrorView::InvalidDate(msg_month_range(ts.date.month as nat)))
    } else if !(1 <= ts.date.day <= 31) {
        Err(ErrorView::InvalidDate(msg_day_range(ts.date.day as nat)))
    } else if !(ts.time.hour <= 23) {
        Err(ErrorView::InvalidTime(msg_hour_range(ts.time.hour as nat)))
    } else if !(ts.time.minute <= 59) {
        Err(ErrorView::InvalidTime(msg_minute_range(ts.time.minute as nat)))
    } else if !(ts.date.day <= days_in_month(ts.date.year as int, ts.date.month as int)) {
        Err(ErrorView::InvalidDate(msg_no_such_date(
            ts.date.year as nat,
            ts.date.month as nat,
            ts.date.day as nat,
        )))
    } else if dur is Infinite && prio > 0 {
        Err(ErrorView::InvalidPriority(msg_infinite_priority()))
    } else if dur matches ScdDuration::Finite(m) && m < 1 {
        Err(ErrorView::InvalidDuration(msg_nonpositive_duration(dur->Finite_0 as nat)))
    } else if prio > 20 {
        Err(ErrorView::InvalidPriority(msg_prio_over(dec_digits(prio as nat))))
    } else if !token_ok(task) {
        Err(ErrorView::InvalidTask(msg_bad_task(task)))
    } else if first_bad_token(kwargs) >= 0 {
        Err(ErrorView::InvalidKwargs(msg_bad_kwarg(kwargs[first_bad_token(kwargs)])))
    } else {
        Ok(LineView { timestamp: ts, duration: dur, priority: prio, experiment: task,
            scheduling_mode: mode, kwargs })
    }
}

/// A validated entry satisfies every invariant.
pub proof fn lemma_validate_valid(
    ts: Timestamp,
    dur: ScdDuration,
    prio: u8,
    task: Seq<char>,
    mode: SchedulingMode,
    kwargs: Seq<Seq<char>>,
)
    ensures
        spec_validate(ts, dur, prio, task, mode, kwargs) matches Ok(v) ==> valid_line(v)
            && v == (LineView { timestamp: ts, duration: dur, priority: prio, experiment: task,
                scheduling_mode: mode, kwargs }),
        valid_line(
            LineView { timestamp: ts, duration: dur, priority: prio, experiment: task,
                scheduling_mode: mode, kwargs },
        ) ==> spec_validate(ts, dur, prio, task, mode, kwargs) == Ok::<LineView, ErrorView>(
            LineView { timestamp: ts, duration: dur, priority: prio, experiment: task,
                scheduling_mode: mode, kwargs },
        ),
{
    if spec_validate(ts, dur, prio, task, mode, kwargs) is Ok {
        assert forall|i: int| 0 <= i < kwargs.len() implies token_ok(#[trigger] kwargs[i]) by {
            lemma_first_bad_ok(kwargs, i);
        }
    }
    let v = LineView { timestamp: ts, duration: dur, priority: prio, experiment: task,
        scheduling_mode: mode, kwargs };
    if valid_line(v) {
        assert(v.kwargs == kwargs);
        assert forall|i: int| 0 <= i < kwargs.len() implies token_ok(#[trigger] kwargs[i]) by {
            assert(token_ok(v.kwargs[i]));
        }
        lemma_first_bad_token_none(kwargs);
    }
}

/// If no token is flagged, every token is fit.
proof fn lemma_first_bad_ok(ts: Seq<Seq<char>>, i: int)
    requires
        first_bad_token(ts) < 0,
        0 <= i < ts.len(),
    ensures
        token_ok(ts[i]),
    decreases i,
{
    if i == 0 {
    } else {
        assert(ts.drop_first()[i - 1] == ts[i]);
        lemma_first_bad_ok(ts.drop_first(), i - 1);
    }
}

/// Whether a token may stand as a field, decided by a character scan.
fn token_ok_exec(s: &str) -> (r: bool)
    ensures
        r == token_ok(s@),
{
    let len = s.unicode_len();
    if len == 0 {
        return false;
    }
    let mut i: usize = 0;
    while i < len
        invariant
            0 <= i <= len,
            len == s@.len(),
            forall|j: int| 0 <= j < i ==> s@[j] != ' ',
        decreases len - i,
    {
        if s.get_char(i) == ' ' {
            return false;
        }
        i = i + 1;
    }
    true
}

/// Builds the message naming a date that is not in the calendar.
pub(crate) fn no_such_date_msg(y: u16, m: u8, d: u8) -> (r: String)
    ensures
        r@ == msg_no_such_date(y as nat, m as nat, d as nat),
{
    let ys = dec_string(y as u64);
    let ms = dec_string(m as u64);
    let ds = dec_string(d as u64);
    let mut s = "No such date: ".to_owned();
    s.append(ys.as_str());
    s.append("-");
    s.append(ms.as_str());
    s.append("-");
    s.append(ds.as_str());
    s
}

/// Relies on `chrono::NaiveDate::from_ymd_opt`, which returns `Some`
/// exactly for dates of the proleptic Gregorian calendar.
#[verifier::external_body]
pub(crate) fn ymd_in_calendar(year: u16, month: u8, day: u8) -> (r: bool)
    ensures
        r == (1 <= month <= 12 && 1 <= day <= days_in_month(year as int, month as int)),
{
    chrono::NaiveDate::from_ymd_opt(year as i32, month as u32, day as u32).is_some()
}

impl ScheduleLine {
    /// Constructs an entry from already-typed field values, applying every
    /// construction invariant in the fixed fail-fast order.
    #[verifier::loop_isolation(false)]
    pub fn new(
        timestamp: Timestamp,
        duration: ScdDuration,
        priority: u8,
        experiment: &String,
        scheduling_mode: &SchedulingMode,
        kwargs: Vec<String>,
    ) -> (r: Result<ScheduleLine, ScheduleError>)
        ensures
            match r {
                Ok(l) => spec_validate(
                    timestamp,
                    duration,
                    priority,
                    experiment@,
                    *scheduling_mode,
                    kwargs.deep_view(),
                ) == Ok::<LineView, ErrorView>(l@),
                Err(e) => spec_validate(
                    timestamp,
                    duration,
                    priority,
                    experiment@,
                    *scheduling_mode,
                    kwargs.deep_view(),
                ) == Err::<LineView, ErrorView>(e@),
            },
    {
        if !(2000 <= timestamp.date.year && timestamp.date.year <= 2050) {
            let y = dec_string(timestamp.date.year as u64);
            return Err(ScheduleError::InvalidDate(
                concat3("Bad year: ", y.as_str(), " not in range [2000, 2050]"),
            ));
        }
        if !(1 <= timestamp.date.month && timestamp.date.month <= 12) {
            let m = dec_string(timestamp.date.month as u64);
            return Err(ScheduleError::InvalidDate(
                concat3("Bad month: ", m.as_str(), " not in range [1, 12]"),
            ));
        }
        if !(1 <= timestamp.date.day && timestamp.date.day <= 31) {
            let d = dec_string(timestamp.date.day as u64);
            return Err(ScheduleError::InvalidDate(
                concat3("Bad day: ", d.as_str(), " not in range [1, 31]"),
            ));
        }
        if !(timestamp.time.hour <= 23) {
            let h = dec_string(timestamp.time.hour as u64);
            return Err(ScheduleError::InvalidTime(
                concat3("Bad hour: ", h.as_str(), " not in range [0, 23]"),
            ));
        }
        if !(timestamp.time.minute <= 59) {
            let m = dec_string(timestamp.time.minute as u64);
            return Err(ScheduleError::InvalidTime(
                concat3("Bad minute: ", m.as_str(), " not in range [0, 59]"),
            ));
        }
        if !ymd_in_calendar(timestamp.date.year, timestamp.date.month, timestamp.date.day) {
            return Err(ScheduleError::InvalidDate(
                no_such_date_msg(timestamp.date.year, timestamp.date.month, timestamp.date.day),
            ));
        }
        match duration {
            ScdDuration::Infinite => {
                if priority > 0 {
                    return Err(ScheduleError::InvalidPriority(
                        "Cannot have priority > 0 for infinite schedule line".to_owned(),
                    ));
                }
            },
            ScdDuration::Finite(m) => {
                if m < 1 {
                    let t = dec_string(m);
                    return Err(ScheduleError::InvalidDuration(
                        concat2("Expected positive duration, got ", t.as_str()),
                    ));
                }
            },
        }
        if priority > 20 {
            let p = dec_string(priority as u64);
            return Err(ScheduleError::InvalidPriority(concat2(p.as_str(), " > 20")));
        }
        if !token_ok_exec(experiment.as_str()) {
            return Err(ScheduleError::InvalidTask(concat2("Bad task: ", experiment.as_str())));
        }
        let mut i: usize = 0;
        let klen = kwargs.len();
        while i < klen
            invariant
                0 <= i <= klen,
                klen == kwargs.deep_view().len(),
                forall|j: int| 0 <= j < i ==> token_ok(#[trigger] kwargs.deep_view()[j]),
            decreases klen - i,
        {
            if !token_ok_exec(kwargs[i].as_str()) {
                proof {
                    assert(kwargs.deep_view()[i as int] == kwargs@[i as int]@);
                    lemma_first_bad_token_at(kwargs.deep_view(), i as int);
                    assert(first_bad_token(kwargs.deep_view()) == i as int);
                }
                return Err(ScheduleError::InvalidKwargs(
                    concat2("Bad kwarg: ", kwargs[i].as_str()),
                ));
            }
            proof {
                assert(kwargs.deep_view()[i as int] == kwargs@[i as int]@);
            }
            i = i + 1;
        }
        proof {
            lemma_first_bad_token_none(kwargs.deep_view());
        }
        Ok(ScheduleLine {
            timestamp,
            duration,
            priority,
            experiment: experiment.clone(),
            scheduling_mode: *scheduling_mode,
            kwargs,
        })
    }
}

impl ScheduleError {
    /// A copy of the error that models identically.
    pub fn duplicate(&self) -> (r: ScheduleError)
        ensures
            r@ == self@,
    {
        match self {
            ScheduleError::InvalidDate(s) => ScheduleError::InvalidDate(s.clone()),
            ScheduleError::InvalidTime(s) => ScheduleError::InvalidTime(s.clone()),
            ScheduleError::InvalidDuration(s) => ScheduleError::InvalidDuration(s.clone()),
            ScheduleError::InvalidPriority(s) => ScheduleError::InvalidPriority(s.clone()),
            ScheduleError::InvalidTask(s) => ScheduleError::InvalidTask(s.clone()),
            ScheduleError::InvalidMode(s) => ScheduleError::InvalidMode(s.clone()),
            ScheduleError::InvalidKwargs(s) => ScheduleError::InvalidKwargs(s.clone()),
            ScheduleError::MissingFields => ScheduleError::MissingFields,
        }
    }
}

impl ScheduleLine {
    /// A copy of the entry that models identically.
    pub fn duplicate(&self) -> (r: ScheduleLine)
        ensures
            r@ == self@,
    {
        let kwargs = self.kwargs.clone();
        proof {
            assert forall|i: int| 0 <= i < self.kwargs@.len() implies kwargs@[i]
                == #[trigger] self.kwargs@[i] by {
                assert(vstd::pervasive::cloned::<String>(self.kwargs[i], kwargs[i]));
            }
            assert(kwargs.deep_view() =~= self.kwargs.deep_view());
        }
        ScheduleLine {
            timestamp: self.timestamp,
            duration: self.duration,
            priority: self.priority,
            experiment: self.experiment.clone(),
            scheduling_mode: self.scheduling_mode,
            kwargs,
        }
    }
}

/// A digit string is bounded by the power of ten of its length.
pub proof fn lemma_digits_val_bound(s: Seq<char>)
    requires
        all_digits(s),
    ensures
        s.len() == 1 ==> digits_val(s) < 10,
        s.len() == 2 ==> digits_val(s) < 100,
        s.len() == 3 ==> digits_val(s) < 1000,
        s.len() == 4 ==> digits_val(s) < 10000,
    decreases s.len(),
{
    if s.len() > 0 {
        reveal_with_fuel(digits_val, 2);
        assert(forall|i: int|
            0 <= i < s.drop_last().len() ==> #[trigger] s.drop_last()[i] == s[i]);
        lemma_digits_val_bound(s.drop_last());
        assert(s.last() == s[s.len() - 1]);
        assert(crate::digits::is_digit(s[s.len() - 1]));
        assert(0 <= crate::digits::digit_val(s.last()) < 10);
    }
}

/// The date a `YYYYMMDD` digit token denotes.
pub open spec fn date_of(s: Seq<char>) -> Date {
    Date {
        year: digits_val(s.subrange(0, 4)) as u16,
        month: digits_val(s.subrange(4, 6)) as u8,
        day: digits_val(s.subrange(6, 8)) as u8,
    }
}

/// What decoding a date token yields: the date of a `YYYYMMDD` digit
/// token that names a calendar date, and `InvalidDate` otherwise.
pub open spec fn spec_parse_date(s: Seq<char>) -> Result<Date, ErrorView> {
    if s.len() == 8 && all_digits(s) && date_in_calendar(date_of(s)) {
        Ok(date_of(s))
    } else {
        Err(ErrorView::InvalidDate(msg_bad_date(s)))
    }
}

/// The time an `HH:MM` token denotes.
pub open spec fn time_of(s: Seq<char>) -> Time {
    Time {
        hour: digits_val(s.subrange(0, 2)) as u8,
        minute: digits_val(s.subrange(3, 5)) as u8,
    }
}

/// What decoding a time token yields: the time of an `HH:MM` token within
/// the day, and `InvalidTime` otherwise.
pub open spec fn spec_parse_time(s: Seq<char>) -> Result<Time, ErrorView> {
    if s.len() == 5 && s[2] == ':' && all_digits(s.subrange(0, 2)) && all_digits(
        s.subrange(3, 5),
    ) && time_valid(time_of(s)) {
        Ok(time_of(s))
    } else {
        Err(ErrorView::InvalidTime(msg_bad_time(s)))
    }
}

/// What decoding a duration count yields: the value of a digit token, and
/// `InvalidDuration` for anything else, an overflowing value included.
pub open spec fn spec_parse_duration(s: Seq<char>) -> Result<u64, ErrorView> {
    match parse_nat(s) {
        Some(v) => if v <= u64::MAX {
            Ok(v as u64)
        } else {
            Err(ErrorView::InvalidDuration(msg_bad_duration(s)))
        },
        None => Err(ErrorView::InvalidDuration(msg_bad_duration(s))),
    }
}

/// What decoding a duration token yields: `-` is the open-ended duration,
/// anything else must be a positive count of minutes.
pub open spec fn spec_parse_scd(s: Seq<char>) -> Result<ScdDuration, ErrorView> {
    if s == "-"@ {
        Ok(ScdDuration::Infinite)
    } else {
        match spec_parse_duration(s) {
            Ok(v) => if v >= 1 {
                Ok(ScdDuration::Finite(v))
            } else {
                Err(ErrorView::InvalidDuration(msg_bad_duration(s)))
            },
            Err(e) => Err(e),
        }
    }
}

/// What decoding a mode token yields: exactly the three canonical
/// lowercase names, and `InvalidMode` carrying any other token.
pub open spec fn spec_parse_mode(s: Seq<char>) -> Result<SchedulingMode, ErrorView> {
    if s == "common"@ {
        Ok(SchedulingMode::Common)
    } else if s == "discretionary"@ {
        Ok(SchedulingMode::Discretionary)
    } else if s == "special"@ {
        Ok(SchedulingMode::Special)
    } else {
        Err(ErrorView::InvalidMode(s))
    }
}

/// The token for a mode: its canonical lowercase name.
pub open spec fn mode_tok(m: SchedulingMode) -> Seq<char> {
    match m {
        SchedulingMode::Common => "common"@,
        SchedulingMode::Discretionary => "discretionary"@,
        SchedulingMode::Special => "special"@,
    }
}

impl SchedulingMode {
    /// The canonical lowercase name of the mode.
    pub fn to_string(&self) -> (r: String)
        ensures
            r@ == mode_tok(*self),
    {
        match self {
            SchedulingMode::Common => "common".to_owned(),
            SchedulingMode::Discretionary => "discretionary".to_owned(),
            SchedulingMode::Special => "special".to_owned(),
        }
    }
}

/// The token for a duration: `-`, or the decimal count of minutes.
pub open spec fn dur_tok(d: ScdDuration) -> Seq<char> {
    match d {
        ScdDuration::Infinite => "-"@,
        ScdDuration::Finite(m) => dec_digits(m as nat),
    }
}

impl ScdDuration {
    /// The text of the duration as it stands in an encoded line.
    pub fn to_string(&self) -> (r: String)
        ensures
            r@ == dur_tok(*self),
    {
        match self {
            ScdDuration::Infinite => "-".to_owned(),
            ScdDuration::Finite(m) => dec_string(*m),
        }
    }

    /// Decodes a duration token as `spec_parse_scd` says.
    pub fn parse(token: &String) -> (r: Result<ScdDuration, ScheduleError>)
        ensures
            match r {
                Ok(d) => spec_parse_scd(token@) == Ok::<ScdDuration, ErrorView>(d),
                Err(e) => spec_parse_scd(token@) == Err::<ScdDuration, ErrorView>(e@),
            },
    {
        let dash = "-".to_owned();
        if token.eq(&dash) {
            return Ok(ScdDuration::Infinite);
        }
        match parse_duration(token) {
            Ok(v) => {
                if v >= 1 {
                    Ok(ScdDuration::Finite(v))
                } else {
                    Err(ScheduleError::InvalidDuration(
                        concat2("Expected minutes > 0, got ", token.as_str()),
                    ))
                }
            },
            Err(e) => Err(e),
        }
    }
}

/// Decodes a `YYYYMMDD` date token as `spec_parse_date` says.
pub fn parse_date(date: &String) -> (r: Result<Date, ScheduleError>)
    ensures
        match r {
            Ok(d) => spec_parse_date(date@) == Ok::<Date, ErrorView>(d),
            Err(e) => spec_parse_date(date@) == Err::<Date, ErrorView>(e@),
        },
{
    let s = date.as_str();
    let len = s.unicode_len();
    if len != 8 {
        return Err(ScheduleError::InvalidDate(concat2("Expected YYYYMMDD, got ", s)));
    }
    let ys = s.substring_char(0, 4);
    let ms = s.substring_char(4, 6);
    let ds = s.substring_char(6, 8);
    match (parse_u64(ys), parse_u64(ms), parse_u64(ds)) {
        (Some(y), Some(m), Some(d)) => {
            proof {
                lemma_digits_val_bound(s@.subrange(0, 4));
                lemma_digits_val_bound(s@.subrange(4, 6));
                lemma_digits_val_bound(s@.subrange(6, 8));
                assert forall|i: int| 0 <= i < s@.len() implies crate::digits::is_digit(
                    #[trigger] s@[i],
                ) by {
                    if i < 4 {
                        assert(s@.subrange(0, 4)[i] == s@[i]);
                    } else if i < 6 {
                        assert(s@.subrange(4, 6)[i - 4] == s@[i]);
                    } else {
                        assert(s@.subrange(6, 8)[i - 6] == s@[i]);
                    }
                }
            }
            if ymd_in_calendar(y as u16, m as u8, d as u8) {
                Ok(Date { year: y as u16, month: m as u8, day: d as u8 })
            } else {
                Err(ScheduleError::InvalidDate(concat2("Expected YYYYMMDD, got ", s)))
            }
        },
        _ => {
            proof {
                if all_digits(s@) {
                    assert forall|i: int| 0 <= i < 4 implies crate::digits::is_digit(
                        #[trigger] s@.subrange(0, 4)[i],
                    ) by {
                        assert(s@.subrange(0, 4)[i] == s@[i]);
                    }
                    assert forall|i: int| 0 <= i < 2 implies crate::digits::is_digit(
                        #[trigger] s@.subrange(4, 6)[i],
                    ) by {
                        assert(s@.subrange(4, 6)[i] == s@[i + 4]);
                    }
                    assert forall|i: int| 0 <= i < 2 implies crate::digits::is_digit(
                        #[trigger] s@.subrange(6, 8)[i],
                    ) by {
                        assert(s@.subrange(6, 8)[i] == s@[i + 6]);
                    }
                    lemma_digits_val_bound(s@.subrange(0, 4));
                    lemma_digits_val_bound(s@.subrange(4, 6));
                    lemma_digits_val_bound(s@.subrange(6, 8));
                }
            }
            Err(ScheduleError::InvalidDate(concat2("Expected YYYYMMDD, got ", s)))
        },
    }
}

/// Decodes an `HH:MM` time token as `spec_parse_time` says.
pub fn parse_time(time: &String) -> (r: Result<Time, ScheduleError>)
    ensures
        match r {
            Ok(t) => spec_parse_time(time@) == Ok::<Time, ErrorView>(t),
            Err(e) => spec_parse_time(time@) == Err::<Time, ErrorView>(e@),
        },
{
    let s = time.as_str();
    let len = s.unicode_len();
    if len != 5 {
        return Err(ScheduleError::InvalidTime(concat2("Expected HH:MM, got ", s)));
    }
    if s.get_char(2) != ':' {
        return Err(ScheduleError::InvalidTime(concat2("Expected HH:MM, got ", s)));
    }
    let hs = s.substring_char(0, 2);
    let ms = s.substring_char(3, 5);
    match (parse_u64(hs), parse_u64(ms)) {
        (Some(h), Some(m)) => {
            proof {
                lemma_digits_val_bound(s@.subrange(0, 2));
                lemma_digits_val_bound(s@.subrange(3, 5));
            }
            if h <= 23 && m <= 59 {
                Ok(Time { hour: h as u8, minute: m as u8 })
            } else {
                Err(ScheduleError::InvalidTime(concat2("Expected HH:MM, got ", s)))
            }
        },
        _ => {
            proof {
                if all_digits(s@.subrange(0, 2)) {
                    lemma_digits_val_bound(s@.subrange(0, 2));
                }
                if all_digits(s@.subrange(3, 5)) {
                    lemma_digits_val_bound(s@.subrange(3, 5));
                }
            }
            Err(ScheduleError::InvalidTime(concat2("Expected HH:MM, got ", s)))
        },
    }
}

/// A number as exactly two digits, zero-padded.
pub open spec fn two_digits(n: nat) -> Seq<char> {
    seq![digit_char(((n / 10) % 10) as int), digit_char((n % 10) as int)]
}

/// A number as exactly four digits, zero-padded.
pub open spec fn four_digits(n: nat) -> Seq<char> {
    two_digits((n / 100) % 100) + two_digits(n % 100)
}

/// The `YYYYMMDD` token of a date.
pub open spec fn date_tok(d: Date) -> Seq<char> {
    four_digits(d.year as nat) + two_digits(d.month as nat) + two_digits(d.day as nat)
}

/// The `HH:MM` token of a time.
pub open spec fn time_tok(t: Time) -> Seq<char> {
    two_digits(t.hour as nat) + seq![':'] + two_digits(t.minute as nat)
}

/// The textual tail of a line: each kwarg preceded by a single space.
pub open spec fn kwargs_text(ks: Seq<Seq<char>>) -> Seq<char>
    decreases ks.len(),
{
    if ks.len() == 0 {
        Seq::empty()
    } else {
        kwargs_text(ks.drop_last()) + seq![' '] + ks.last()
    }
}

/// The fixed six fields of an encoded line, space-separated.
pub open spec fn enc_prefix(v: LineView) -> Seq<char> {
    date_tok(v.timestamp.date) + seq![' '] + time_tok(v.timestamp.time) + seq![' '] + dur_tok(
        v.duration,
    ) + seq![' '] + dec_digits(v.priority as nat) + seq![' '] + v.experiment + seq![' ']
        + mode_tok(v.scheduling_mode)
}

/// The one-line text encoding of an entry. The date and time tokens
/// together always span exactly 14 columns (8 digits, a space, and
/// `HH:MM`), so the fixed-width date+time field needs no further padding.
pub open spec fn spec_encode(v: LineView) -> Seq<char> {
    enc_prefix(v) + kwargs_text(v.kwargs)
}

/// Appends a number as exactly two zero-padded digits.
fn push_two_digits(n: u8, out: &mut String)
    ensures
        final(out)@ == old(out)@ + two_digits(n as nat),
{
    out.append(digit_str((n / 10) % 10));
    out.append(digit_str(n % 10));
    assert(final(out)@ =~= old(out)@ + two_digits(n as nat));
}

/// Appends a number as exactly four zero-padded digits.
fn push_four_digits(n: u16, out: &mut String)
    ensures
        final(out)@ == old(out)@ + four_digits(n as nat),
{
    push_two_digits(((n / 100) % 100) as u8, out);
    push_two_digits((n % 100) as u8, out);
    assert(final(out)@ =~= old(out)@ + four_digits(n as nat));
}

impl ScheduleLine {
    /// Encodes the entry as its one-line text form.
    #[verifier::loop_isolation(false)]
    pub fn format(&self) -> (r: String)
        ensures
            r@ == spec_encode(self@),
    {
        proof {
            reveal_strlit(" ");
            reveal_strlit(":");
            assert(" "@ =~= seq![' ']);
            assert(":"@ =~= seq![':']);
        }
        let mut s = String::new();
        push_four_digits(self.timestamp.date.year, &mut s);
        push_two_digits(self.timestamp.date.month, &mut s);
        push_two_digits(self.timestamp.date.day, &mut s);
        s.append(" ");
        push_two_digits(self.timestamp.time.hour, &mut s);
        s.append(":");
        push_two_digits(self.timestamp.time.minute, &mut s);
        s.append(" ");
        let d = self.duration.to_string();
        s.append(d.as_str());
        s.append(" ");
        push_dec_digits(self.priority as u64, &mut s);
        s.append(" ");
        s.append(self.experiment.as_str());
        s.append(" ");
        let m = self.scheduling_mode.to_string();
        s.append(m.as_str());
        assert(s@ =~= enc_prefix(self@));
        let klen = self.kwargs.len();
        let mut i: usize = 0;
        proof {
            assert(self@.kwargs.take(0) =~= Seq::<Seq<char>>::empty());
        }
        while i < klen
            invariant
                0 <= i <= klen,
                s@ == enc_prefix(self@) + kwargs_text(self@.kwargs.take(i as int)),
            decreases klen - i,
        {
            s.append(" ");
            s.append(self.kwargs[i].as_str());
            proof {
                assert(self@.kwargs.take(i + 1).drop_last() =~= self@.kwargs.take(i as int));
                assert(self@.kwargs.take(i + 1).last() == self@.kwargs[i as int]);
                assert(self@.kwargs[i as int] == self.kwargs@[i as int]@);
                assert(s@ =~= enc_prefix(self@) + kwargs_text(self@.kwargs.take(i + 1)));
            }
            i = i + 1;
        }
        proof {
            assert(self@.kwargs.take(klen as int) =~= self@.kwargs);
        }
        s
    }
}

/// What decoding a priority token yields: a digit token valued at most 20;
/// the raw token is `InvalidPriority` when it is not a byte-sized number,
/// and the token with `> 20` appended when it is out of range.
pub open spec fn spec_parse_prio(s: Seq<char>) -> Result<u8, ErrorView> {
    match parse_nat(s) {
        None => Err(ErrorView::InvalidPriority(s)),
        Some(v) => if v > 255 {
            Err(ErrorView::InvalidPriority(s))
        } else if v > 20 {
            Err(ErrorView::InvalidPriority(msg_prio_over(s)))
        } else {
            Ok(v as u8)
        },
    }
}

/// What decoding a whole line yields: six space-separated tokens and the
/// kwarg tail, each token read by its field parser in the fixed order, and
/// the construction invariants re-applied at the end.
pub open spec fn spec_decode(s: Seq<char>) -> Result<LineView, ErrorView> {
    let toks = split_sp(s);
    if toks.len() < 6 {
        Err(ErrorView::MissingFields)
    } else {
        match spec_parse_date(toks[0]) {
            Err(e) => Err(e),
            Ok(date) => match spec_parse_time(toks[1]) {
                Err(e) => Err(e),
                Ok(time) => match spec_parse_prio(toks[3]) {
                    Err(e) => Err(e),
                    Ok(prio) => match spec_parse_mode(toks[5]) {
                        Err(e) => Err(e),
                        Ok(mode) => match spec_parse_scd(toks[2]) {
                            Err(e) => Err(e),
                            Ok(dur) => spec_validate(
                                Timestamp { date, time },
                                dur,
                                prio,
                                toks[4],
                                mode,
                                toks.skip(6),
                            ),
                        },
                    },
                },
            },
        }
    }
}

impl ScheduleLine {
    /// Decodes one line as `spec_decode` says.
    #[verifier::loop_isolation(false)]
    pub fn decode(value: &String) -> (r: Result<ScheduleLine, ScheduleError>)
        ensures
            match r {
                Ok(l) => spec_decode(value@) == Ok::<LineView, ErrorView>(l@),
                Err(e) => spec_decode(value@) == Err::<LineView, ErrorView>(e@),
            },
    {
        let fields = split_spaces(value.as_str());
        let nf = fields.len();
        if nf < 6 {
            return Err(ScheduleError::MissingFields);
        }
        proof {
            assert forall|j: int| 0 <= j < nf implies fields.deep_view()[j]
                == #[trigger] fields@[j]@ by {}
        }
        let date = match parse_date(&fields[0]) {
            Ok(d) => d,
            Err(e) => {
                return Err(e);
            },
        };
        let time = match parse_time(&fields[1]) {
            Ok(t) => t,
            Err(e) => {
                return Err(e);
            },
        };
        let prio: u8 = match parse_u64(fields[3].as_str()) {
            Some(v) => {
                if v > 255 {
                    return Err(ScheduleError::InvalidPriority(fields[3].clone()));
                }
                if v > 20 {
                    return Err(ScheduleError::InvalidPriority(
                        concat2(fields[3].as_str(), " > 20"),
                    ));
                }
                v as u8
            },
            None => {
                return Err(ScheduleError::InvalidPriority(fields[3].clone()));
            },
        };
        let mode = {
            let f = &fields[5];
            if f.eq(&"common".to_owned()) {
                SchedulingMode::Common
            } else if f.eq(&"discretionary".to_owned()) {
                SchedulingMode::Discretionary
            } else if f.eq(&"special".to_owned()) {
                SchedulingMode::Special
            } else {
                return Err(ScheduleError::InvalidMode(f.clone()));
            }
        };
        let dur = match ScdDuration::parse(&fields[2]) {
            Ok(d) => d,
            Err(e) => {
                return Err(e);
            },
        };
        let mut kwargs: Vec<String> = Vec::new();
        let mut i: usize = 6;
        proof {
            assert(kwargs.deep_view() =~= fields.deep_view().subrange(6, 6));
        }
        while i < nf
            invariant
                6 <= i <= nf,
                kwargs.deep_view() == fields.deep_view().subrange(6, i as int),
            decreases nf - i,
        {
            let ghost old_kw = kwargs.deep_view();
            kwargs.push(fields[i].clone());
            proof {
                assert(kwargs.deep_view() =~= old_kw.push(fields.deep_view()[i as int]));
                assert(kwargs.deep_view() =~= fields.deep_view().subrange(6, i + 1));
            }
            i = i + 1;
        }
        proof {
            assert(kwargs.deep_view() =~= fields.deep_view().skip(6));
        }
        Self::new(Timestamp { date, time }, dur, prio, &fields[4], &mode, kwargs)
    }
}

pub proof fn lemma_two_digits_props(n: nat)
    ensures
        two_digits(n).len() == 2,
        all_digits(two_digits(n)),
        n < 100 ==> digits_val(two_digits(n)) == n,
{
    reveal_with_fuel(digits_val, 3);
    let s = two_digits(n);
    crate::digits::lemma_digit_char_val(((n / 10) % 10) as int);
    crate::digits::lemma_digit_char_val((n % 10) as int);
    assert(s[0] == digit_char(((n / 10) % 10) as int));
    assert(s[1] == digit_char((n % 10) as int));
    assert(s.drop_last() =~= seq![digit_char(((n / 10) % 10) as int)]);
    assert(s.drop_last().drop_last() =~= Seq::<char>::empty());
    if n < 100 {
        vstd::arithmetic::div_mod::lemma_fundamental_div_mod(n as int, 10);
        assert((n / 10) % 10 == n / 10) by {
            vstd::arithmetic::div_mod::lemma_small_mod((n / 10) as nat, 10);
        }
    }
}

/// Appending two digit characters multiplies the leading value by 100.
proof fn lemma_digits_val_concat2(a: Seq<char>, b: Seq<char>)
    requires
        b.len() == 2,
        all_digits(b),
    ensures
        digits_val(a + b) == digits_val(a) * 100 + digits_val(b),
{
    reveal_with_fuel(digits_val, 3);
    let s = a + b;
    assert(s.drop_last() =~= a + b.drop_last());
    assert(s.last() == b.last());
    assert((a + b.drop_last()).drop_last() =~= a);
    assert((a + b.drop_last()).last() == b[0]);
    assert(b.drop_last() =~= seq![b[0]]);
    assert(b.drop_last().drop_last() =~= Seq::<char>::empty());
    assert(crate::digits::is_digit(b[0]));
    assert(crate::digits::is_digit(b[1]));
    assert(b.last() == b[1]);
}

pub proof fn lemma_four_digits_props(n: nat)
    ensures
        four_digits(n).len() == 4,
        all_digits(four_digits(n)),
        n < 10000 ==> digits_val(four_digits(n)) == n,
{
    let hi = (n / 100) % 100;
    let lo = n % 100;
    lemma_two_digits_props(hi);
    lemma_two_digits_props(lo);
    let s = four_digits(n);
    assert forall|i: int| 0 <= i < s.len() implies crate::digits::is_digit(#[trigger] s[i]) by {
        if i < 2 {
            assert(s[i] == two_digits(hi)[i]);
        } else {
            assert(s[i] == two_digits(lo)[i - 2]);
        }
    }
    lemma_digits_val_concat2(two_digits(hi), two_digits(lo));
    if n < 10000 {
        vstd::arithmetic::div_mod::lemma_fundamental_div_mod(n as int, 100);
        assert((n / 100) % 100 == n / 100) by {
            vstd::arithmetic::div_mod::lemma_small_mod((n / 100) as nat, 100);
        }
    }
}

/// Digit strings hold no space.
pub proof fn lemma_digits_no_space(s: Seq<char>)
    requires
        all_digits(s),
    ensures
        no_space(s),
{
    assert forall|i: int| 0 <= i < s.len() implies #[trigger] s[i] != ' ' by {
        assert(crate::digits::is_digit(s[i]));
    }
}

/// The date token of a calendar date within the numeric field widths
/// decodes back to that date.
pub proof fn lemma_date_tok_parse(d: Date)
    ensures
        date_tok(d).len() == 8,
        all_digits(date_tok(d)),
        (d.year < 10000 && d.month < 100 && d.day < 100 && date_in_calendar(d))
            ==> spec_parse_date(date_tok(d)) == Ok::<Date, ErrorView>(d),
{
    lemma_four_digits_props(d.year as nat);
    lemma_two_digits_props(d.month as nat);
    lemma_two_digits_props(d.day as nat);
    let s = date_tok(d);
    assert forall|i: int| 0 <= i < s.len() implies crate::digits::is_digit(#[trigger] s[i]) by {
        if i < 4 {
            assert(s[i] == four_digits(d.year as nat)[i]);
        } else if i < 6 {
            assert(s[i] == two_digits(d.month as nat)[i - 4]);
        } else {
            assert(s[i] == two_digits(d.day as nat)[i - 6]);
        }
    }
    if d.year < 10000 && d.month < 100 && d.day < 100 && date_in_calendar(d) {
        assert(s.subrange(0, 4) =~= four_digits(d.year as nat));
        assert(s.subrange(4, 6) =~= two_digits(d.month as nat));
        assert(s.subrange(6, 8) =~= two_digits(d.day as nat));
        assert(date_of(s) == d);
    }
}

/// The time token of a valid time decodes back to that time.
pub proof fn lemma_time_tok_parse(t: Time)
    ensures
        time_tok(t).len() == 5,
        time_tok(t)[2] == ':',
        no_space(time_tok(t)),
        time_valid(t) ==> spec_parse_time(time_tok(t)) == Ok::<Time, ErrorView>(t),
{
    lemma_two_digits_props(t.hour as nat);
    lemma_two_digits_props(t.minute as nat);
    let s = time_tok(t);
    assert(s.subrange(0, 2) =~= two_digits(t.hour as nat));
    assert(s.subrange(3, 5) =~= two_digits(t.minute as nat));
    assert forall|i: int| 0 <= i < s.len() implies #[trigger] s[i] != ' ' by {
        if i < 2 {
            assert(s[i] == two_digits(t.hour as nat)[i]);
            assert(crate::digits::is_digit(s[i]));
        } else if i == 2 {
            assert(s[i] == ':');
        } else {
            assert(s[i] == two_digits(t.minute as nat)[i - 3]);
            assert(crate::digits::is_digit(s[i]));
        }
    }
    if time_valid(t) {
        assert(time_of(s) == t);
    }
}

/// The six fixed tokens of an encoded entry, followed by its kwargs.
pub open spec fn enc_tokens(v: LineView) -> Seq<Seq<char>> {
    seq![
        date_tok(v.timestamp.date),
        time_tok(v.timestamp.time),
        dur_tok(v.duration),
        dec_digits(v.priority as nat),
        v.experiment,
        mode_tok(v.scheduling_mode),
    ] + v.kwargs
}

proof fn lemma_join6(
    a: Seq<char>,
    b: Seq<char>,
    c: Seq<char>,
    d: Seq<char>,
    e: Seq<char>,
    f: Seq<char>,
)
    ensures
        crate::text::join_sp(seq![a, b, c, d, e, f]) == a + seq![' '] + b + seq![' '] + c
            + seq![' '] + d + seq![' '] + e + seq![' '] + f,
{
    let s6 = seq![a, b, c, d, e, f];
    assert(s6.drop_first() =~= seq![b, c, d, e, f]);
    assert(seq![b, c, d, e, f].drop_first() =~= seq![c, d, e, f]);
    assert(seq![c, d, e, f].drop_first() =~= seq![d, e, f]);
    assert(seq![d, e, f].drop_first() =~= seq![e, f]);
    assert(seq![e, f].drop_first() =~= seq![f]);
    assert(crate::text::join_sp(seq![f]) == f);
    assert(crate::text::join_sp(seq![e, f]) == e + seq![' '] + f);
    assert(crate::text::join_sp(seq![d, e, f]) =~= d + seq![' '] + e + seq![' '] + f);
    assert(crate::text::join_sp(seq![c, d, e, f]) =~= c + seq![' '] + d + seq![' '] + e
        + seq![' '] + f);
    assert(crate::text::join_sp(seq![b, c, d, e, f]) =~= b + seq![' '] + c + seq![' '] + d
        + seq![' '] + e + seq![' '] + f);
    assert(crate::text::join_sp(s6) =~= a + seq![' '] + b + seq![' '] + c + seq![' '] + d
        + seq![' '] + e + seq![' '] + f);
}

/// The encoding of an entry is its tokens joined by single spaces.
pub proof fn lemma_encode_is_join(v: LineView)
    ensures
        spec_encode(v) == crate::text::join_sp(enc_tokens(v)),
    decreases v.kwargs.len(),
{
    if v.kwargs.len() == 0 {
        lemma_join6(
            date_tok(v.timestamp.date),
            time_tok(v.timestamp.time),
            dur_tok(v.duration),
            dec_digits(v.priority as nat),
            v.experiment,
            mode_tok(v.scheduling_mode),
        );
        assert(enc_tokens(v) =~= seq![
            date_tok(v.timestamp.date),
            time_tok(v.timestamp.time),
            dur_tok(v.duration),
            dec_digits(v.priority as nat),
            v.experiment,
            mode_tok(v.scheduling_mode),
        ]);
        assert(spec_encode(v) =~= enc_prefix(v));
    } else {
        let v2 = LineView { kwargs: v.kwargs.drop_last(), ..v };
        lemma_encode_is_join(v2);
        assert(enc_tokens(v2).push(v.kwargs.last()) =~= enc_tokens(v));
        crate::text::lemma_join_push(enc_tokens(v2), v.kwargs.last());
        assert(spec_encode(v) =~= spec_encode(v2) + seq![' '] + v.kwargs.last());
        assert(spec_encode(v) =~= crate::text::join_sp(enc_tokens(v)));
    }
}

/// Round trip: decoding the encoding of any valid entry yields that entry
/// back, bit for bit.
pub proof fn lemma_decode_encode(v: LineView)
    requires
        valid_line(v),
    ensures
        spec_decode(spec_encode(v)) == Ok::<LineView, ErrorView>(v),
{
    reveal_strlit("common");
    reveal_strlit("discretionary");
    reveal_strlit("special");
    reveal_strlit("-");
    let toks = enc_tokens(v);
    lemma_encode_is_join(v);
    lemma_date_tok_parse(v.timestamp.date);
    lemma_time_tok_parse(v.timestamp.time);
    crate::digits::lemma_dec_digits_wf(v.priority as nat);
    crate::digits::lemma_parse_dec_digits(v.priority as nat);
    lemma_digits_no_space(date_tok(v.timestamp.date));
    lemma_digits_no_space(dec_digits(v.priority as nat));
    match v.duration {
        ScdDuration::Finite(m) => {
            crate::digits::lemma_dec_digits_wf(m as nat);
            crate::digits::lemma_parse_dec_digits(m as nat);
            lemma_digits_no_space(dec_digits(m as nat));
        },
        ScdDuration::Infinite => {},
    }
    assert(no_space(mode_tok(v.scheduling_mode)) && mode_tok(v.scheduling_mode).len() >= 1);
    assert(no_space(dur_tok(v.duration)) && dur_tok(v.duration).len() >= 1);
    assert forall|i: int| 0 <= i < toks.len() implies token_ok(#[trigger] toks[i]) by {
        if i >= 6 {
            assert(toks[i] == v.kwargs[i - 6]);
        }
    }
    crate::text::lemma_split_join(toks);
    assert(split_sp(spec_encode(v)) == toks);
    assert(toks.len() == 6 + v.kwargs.len());
    // each fixed token parses back to its field
    assert(spec_parse_date(toks[0]) == Ok::<Date, ErrorView>(v.timestamp.date));
    assert(spec_parse_time(toks[1]) == Ok::<Time, ErrorView>(v.timestamp.time));
    assert(spec_parse_prio(toks[3]) == Ok::<u8, ErrorView>(v.priority));
    match v.scheduling_mode {
        SchedulingMode::Common => {
            assert(spec_parse_mode(toks[5]) == Ok::<SchedulingMode, ErrorView>(
                SchedulingMode::Common,
            ));
        },
        SchedulingMode::Discretionary => {
            assert(toks[5] != "common"@);
            assert(spec_parse_mode(toks[5]) == Ok::<SchedulingMode, ErrorView>(
                SchedulingMode::Discretionary,
            ));
        },
        SchedulingMode::Special => {
            assert(toks[5] != "common"@);
            assert(toks[5] != "discretionary"@);
            assert(spec_parse_mode(toks[5]) == Ok::<SchedulingMode, ErrorView>(
                SchedulingMode::Special,
            ));
        },
    }
    match v.duration {
        ScdDuration::Infinite => {
            assert(spec_parse_scd(toks[2]) == Ok::<ScdDuration, ErrorView>(
                ScdDuration::Infinite,
            ));
        },
        ScdDuration::Finite(m) => {
            if dec_digits(m as nat) == "-"@ {
                assert(dec_digits(m as nat)[0] == '-');
                assert(crate::digits::is_digit('-'));
                assert(false);
            }
            assert(spec_parse_scd(toks[2]) == Ok::<ScdDuration, ErrorView>(
                ScdDuration::Finite(m),
            ));
        },
    }
    assert(toks.skip(6) =~= v.kwargs);
    assert(Timestamp { date: v.timestamp.date, time: v.timestamp.time } == v.timestamp);
    lemma_validate_valid(
        v.timestamp,
        v.duration,
        v.priority,
        v.experiment,
        v.scheduling_mode,
        v.kwargs,
    );
    assert(LineView {
        timestamp: v.timestamp,
        duration: v.duration,
        priority: v.priority,
        experiment: v.experiment,
        scheduling_mode: v.scheduling_mode,
        kwargs: v.kwargs,
    } == v);
}

/// Decodes a minute-count token as `spec_parse_duration` says.
pub fn parse_duration(dur: &String) -> (r: Result<u64, ScheduleError>)
    ensures
        match r {
            Ok(v) => spec_parse_duration(dur@) == Ok::<u64, ErrorView>(v),
            Err(e) => spec_parse_duration(dur@) == Err::<u64, ErrorView>(e@),
        },
{
    match parse_u64(dur.as_str()) {
        Some(v) => Ok(v),
        None => Err(ScheduleError::InvalidDuration(
            concat2("Expected minutes > 0, got ", dur.as_str()),
        )),
    }
}

} // verus!
