//! The edit session: one aggregate holding the per-field text buffers, the
//! three selectable lists, the screen and field cursors, the last error,
//! and the additions/deletions ledgers; with the field-cycle transitions,
//! buffer editing, entry submission, and the load/save protocol.

use vstd::prelude::*;
use crate::digits::{dec_digits, dec_string, parse_nat, parse_u64};
use crate::order::{sort_descending, sorted_desc};
use crate::schedule::{
    concat2, concat3, days_in_month, msg_day_range, msg_hour_range, msg_minute_range,
    msg_month_range, msg_no_such_date, msg_prio_over, msg_year_range, no_such_date_msg,
    parse_duration, spec_decode, spec_parse_duration, spec_validate, ymd_in_calendar, Date,
    ErrorView, LineView, ScdDuration, ScheduleError, ScheduleLine, SchedulingMode, Time,
    Timestamp,
};
use crate::selectable::SelectableList;
use crate::text::{pop_char, push_char, split_sp, split_spaces};
use vstd::utf8::encode_utf8;

verus! {

/// The screen the interface is on.
#[derive(Clone, Copy, Debug, PartialEq, Eq, Structural)]
pub enum CurrentScreen {
    Main,
    Adding,
    Removing,
    Selecting,
    Exiting,
}

/// The field of the add-entry form that holds the cursor, plus the final
/// `Done` state from which the entry is submitted.
#[derive(Clone, Copy, Debug, PartialEq, Eq, Structural)]
pub enum CurrentlyEditing {
    Year,
    Month,
    Day,
    Hour,
    Minute,
    Duration,
    Priority,
    Experiment,
    SchedulingMode,
    Kwargs,
    Done,
}

/// The successor of each field in the fixed cyclic order.
pub open spec fn next_field(f: CurrentlyEditing) -> CurrentlyEditing {
    match f {
        CurrentlyEditing::Year => CurrentlyEditing::Month,
        CurrentlyEditing::Month => CurrentlyEditing::Day,
        CurrentlyEditing::Day => CurrentlyEditing::Hour,
        CurrentlyEditing::Hour => CurrentlyEditing::Minute,
        CurrentlyEditing::Minute => CurrentlyEditing::Duration,
        CurrentlyEditing::Duration => CurrentlyEditing::Priority,
        CurrentlyEditing::Priority => CurrentlyEditing::Experiment,
        CurrentlyEditing::Experiment => CurrentlyEditing::SchedulingMode,
        CurrentlyEditing::SchedulingMode => CurrentlyEditing::Kwargs,
        CurrentlyEditing::Kwargs => CurrentlyEditing::Done,
        CurrentlyEditing::Done => CurrentlyEditing::Year,
    }
}

/// The predecessor of each field in the fixed cyclic order.
pub open spec fn prev_field(f: CurrentlyEditing) -> CurrentlyEditing {
    match f {
        CurrentlyEditing::Year => CurrentlyEditing::Done,
        CurrentlyEditing::Month => CurrentlyEditing::Year,
        CurrentlyEditing::Day => CurrentlyEditing::Month,
        CurrentlyEditing::Hour => CurrentlyEditing::Day,
        CurrentlyEditing::Minute => CurrentlyEditing::Hour,
        CurrentlyEditing::Duration => CurrentlyEditing::Minute,
        CurrentlyEditing::Priority => CurrentlyEditing::Duration,
        CurrentlyEditing::Experiment => CurrentlyEditing::Priority,
        CurrentlyEditing::SchedulingMode => CurrentlyEditing::Experiment,
        CurrentlyEditing::Kwargs => CurrentlyEditing::SchedulingMode,
        CurrentlyEditing::Done => CurrentlyEditing::Kwargs,
    }
}

/// Whether the field takes free text; task and mode are chosen from
/// lists, and `Done` takes no input.
pub open spec fn editable(f: CurrentlyEditing) -> bool {
    match f {
        CurrentlyEditing::Experiment => false,
        CurrentlyEditing::SchedulingMode => false,
        CurrentlyEditing::Done => false,
        _ => true,
    }
}

/// The list of selectable task names.
pub type ExperimentList = SelectableList<String>;

/// The list of selectable modes.
pub type ModeList = SelectableList<SchedulingMode>;

/// The live list of schedule entries.
pub type ScheduleList = SelectableList<ScheduleLine>;

/// The whole edit-session state.
pub struct App {
    pub year_input: String,
    pub month_input: String,
    pub day_input: String,
    pub hour_input: String,
    pub minute_input: String,
    pub duration_input: String,
    pub priority_input: String,
    pub experiment_list: ExperimentList,
    pub mode_list: ModeList,
    pub kwarg_input: String,
    pub schedule_list: ScheduleList,
    pub current_screen: CurrentScreen,
    pub currently_editing: Option<CurrentlyEditing>,
    pub last_err: Option<ScheduleError>,
    pub additions: Vec<ScheduleLine>,
    pub deletions: Vec<ScheduleLine>,
}

/// The text buffer belonging to a free-text field; empty for the fields
/// that are selections.
pub open spec fn buffer_view(a: App, f: CurrentlyEditing) -> Seq<char> {
    match f {
        CurrentlyEditing::Year => a.year_input@,
        CurrentlyEditing::Month => a.month_input@,
        CurrentlyEditing::Day => a.day_input@,
        CurrentlyEditing::Hour => a.hour_input@,
        CurrentlyEditing::Minute => a.minute_input@,
        CurrentlyEditing::Duration => a.duration_input@,
        CurrentlyEditing::Priority => a.priority_input@,
        CurrentlyEditing::Kwargs => a.kwarg_input@,
        _ => Seq::empty(),
    }
}

/// All eight text buffers agree between the two states.
pub open spec fn same_inputs(a: App, b: App) -> bool {
    &&& a.year_input == b.year_input
    &&& a.month_input == b.month_input
    &&& a.day_input == b.day_input
    &&& a.hour_input == b.hour_input
    &&& a.minute_input == b.minute_input
    &&& a.duration_input == b.duration_input
    &&& a.priority_input == b.priority_input
    &&& a.kwarg_input == b.kwarg_input
}

/// All text buffers but the one belonging to `f` agree.
pub open spec fn same_inputs_except(a: App, b: App, f: CurrentlyEditing) -> bool {
    &&& f != CurrentlyEditing::Year ==> a.year_input == b.year_input
    &&& f != CurrentlyEditing::Month ==> a.month_input == b.month_input
    &&& f != CurrentlyEditing::Day ==> a.day_input == b.day_input
    &&& f != CurrentlyEditing::Hour ==> a.hour_input == b.hour_input
    &&& f != CurrentlyEditing::Minute ==> a.minute_input == b.minute_input
    &&& f != CurrentlyEditing::Duration ==> a.duration_input == b.duration_input
    &&& f != CurrentlyEditing::Priority ==> a.priority_input == b.priority_input
    &&& f != CurrentlyEditing::Kwargs ==> a.kwarg_input == b.kwarg_input
}

/// The three lists agree between the two states.
pub open spec fn same_lists(a: App, b: App) -> bool {
    &&& a.experiment_list.items == b.experiment_list.items
    &&& a.experiment_list.selected == b.experiment_list.selected
    &&& a.experiment_list.offset == b.experiment_list.offset
    &&& a.mode_list.items == b.mode_list.items
    &&& a.mode_list.selected == b.mode_list.selected
    &&& a.mode_list.offset == b.mode_list.offset
    &&& a.schedule_list.items == b.schedule_list.items
    &&& a.schedule_list.selected == b.schedule_list.selected
    &&& a.schedule_list.offset == b.schedule_list.offset
}

/// The two ledgers agree between the two states.
pub open spec fn same_ledgers(a: App, b: App) -> bool {
    a.additions == b.additions && a.deletions == b.deletions
}

/// Every text buffer is empty.
pub open spec fn inputs_clear(a: App) -> bool {
    &&& a.year_input@.len() == 0
    &&& a.month_input@.len() == 0
    &&& a.day_input@.len() == 0
    &&& a.hour_input@.len() == 0
    &&& a.minute_input@.len() == 0
    &&& a.duration_input@.len() == 0
    &&& a.priority_input@.len() == 0
    &&& a.kwarg_input@.len() == 0
}

impl App {
    /// A fresh session over an already-loaded schedule and the available
    /// task names: empty buffers, the three modes with the first selected,
    /// no error, no entry in progress.
    pub fn new(schedule: Vec<ScheduleLine>, experiments: Vec<String>) -> (r: App)
        ensures
            inputs_clear(r),
            r.experiment_list.items == experiments,
            r.experiment_list.selected is None,
            r.mode_list.items@ =~= seq![
                SchedulingMode::Common,
                SchedulingMode::Discretionary,
                SchedulingMode::Special,
            ],
            r.mode_list.selected == Some(0usize),
            r.schedule_list.items == schedule,
            r.schedule_list.selected is None,
            r.current_screen == CurrentScreen::Main,
            r.currently_editing is None,
            r.last_err is None,
            r.additions@.len() == 0,
            r.deletions@.len() == 0,
    {
        let mut modes: Vec<SchedulingMode> = Vec::new();
        modes.push(SchedulingMode::Common);
        modes.push(SchedulingMode::Discretionary);
        modes.push(SchedulingMode::Special);
        let mut app = App {
            year_input: String::new(),
            month_input: String::new(),
            day_input: String::new(),
            hour_input: String::new(),
            minute_input: String::new(),
            duration_input: String::new(),
            priority_input: String::new(),
            experiment_list: SelectableList::new(experiments),
            mode_list: SelectableList::new(modes),
            kwarg_input: String::new(),
            schedule_list: SelectableList::new(schedule),
            current_screen: CurrentScreen::Main,
            currently_editing: None,
            last_err: None,
            additions: Vec::new(),
            deletions: Vec::new(),
        };
        app.mode_list.first();
        app
    }

    /// Advances the field cursor one step around the cycle; no-op while no
    /// entry add is in progress.
    pub fn forward_toggle(&mut self)
        ensures
            final(self).currently_editing == match old(self).currently_editing {
                Some(f) => Some(next_field(f)),
                None => None::<CurrentlyEditing>,
            },
            same_inputs(*old(self), *final(self)),
            same_lists(*old(self), *final(self)),
            same_ledgers(*old(self), *final(self)),
            final(self).current_screen == old(self).current_screen,
            final(self).last_err == old(self).last_err,
    {
        match self.currently_editing {
            Some(f) => {
                self.currently_editing = Some(
                    match f {
                        CurrentlyEditing::Year => CurrentlyEditing::Month,
                        CurrentlyEditing::Month => CurrentlyEditing::Day,
                        CurrentlyEditing::Day => CurrentlyEditing::Hour,
                        CurrentlyEditing::Hour => CurrentlyEditing::Minute,
                        CurrentlyEditing::Minute => CurrentlyEditing::Duration,
                        CurrentlyEditing::Duration => CurrentlyEditing::Priority,
                        CurrentlyEditing::Priority => CurrentlyEditing::Experiment,
                        CurrentlyEditing::Experiment => CurrentlyEditing::SchedulingMode,
                        CurrentlyEditing::SchedulingMode => CurrentlyEditing::Kwargs,
                        CurrentlyEditing::Kwargs => CurrentlyEditing::Done,
                        CurrentlyEditing::Done => CurrentlyEditing::Year,
                    },
                );
            },
            None => {},
        }
    }

    /// Moves the field cursor one step back around the cycle; no-op while
    /// no entry add is in progress.
    pub fn backward_toggle(&mut self)
        ensures
            final(self).currently_editing == match old(self).currently_editing {
                Some(f) => Some(prev_field(f)),
                None => None::<CurrentlyEditing>,
            },
            same_inputs(*old(self), *final(self)),
            same_lists(*old(self), *final(self)),
            same_ledgers(*old(self), *final(self)),
            final(self).current_screen == old(self).current_screen,
            final(self).last_err == old(self).last_err,
    {
        match self.currently_editing {
            Some(f) => {
                self.currently_editing = Some(
                    match f {
                        CurrentlyEditing::Year => CurrentlyEditing::Done,
                        CurrentlyEditing::Month => CurrentlyEditing::Year,
                        CurrentlyEditing::Day => CurrentlyEditing::Month,
                        CurrentlyEditing::Hour => CurrentlyEditing::Day,
                        CurrentlyEditing::Minute => CurrentlyEditing::Hour,
                        CurrentlyEditing::Duration => CurrentlyEditing::Minute,
                        CurrentlyEditing::Priority => CurrentlyEditing::Duration,
                        CurrentlyEditing::Experiment => CurrentlyEditing::Priority,
                        CurrentlyEditing::SchedulingMode => CurrentlyEditing::Experiment,
                        CurrentlyEditing::Kwargs => CurrentlyEditing::SchedulingMode,
                        CurrentlyEditing::Done => CurrentlyEditing::Kwargs,
                    },
                );
            },
            None => {},
        }
    }

    /// Jumps straight to `Done` from any field; no-op while no entry add
    /// is in progress.
    pub fn jump_to_done(&mut self)
        ensures
            final(self).currently_editing == match old(self).currently_editing {
                Some(_) => Some(CurrentlyEditing::Done),
                None => None::<CurrentlyEditing>,
            },
            same_inputs(*old(self), *final(self)),
            same_lists(*old(self), *final(self)),
            same_ledgers(*old(self), *final(self)),
            final(self).current_screen == old(self).current_screen,
            final(self).last_err == old(self).last_err,
    {
        match self.currently_editing {
            Some(_) => {
                self.currently_editing = Some(CurrentlyEditing::Done);
            },
            None => {},
        }
    }

    /// Appends one character to the buffer of the current field; fields
    /// that are selections, `Done`, and the not-editing state take none.
    pub fn char_input(&mut self, c: char)
        ensures
            final(self).currently_editing == old(self).currently_editing,
            same_lists(*old(self), *final(self)),
            same_ledgers(*old(self), *final(self)),
            final(self).current_screen == old(self).current_screen,
            final(self).last_err == old(self).last_err,
            match old(self).currently_editing {
                Some(f) => if editable(f) {
                    buffer_view(*final(self), f) == buffer_view(*old(self), f) + seq![c]
                        && same_inputs_except(*old(self), *final(self), f)
                } else {
                    same_inputs(*old(self), *final(self))
                },
                None => same_inputs(*old(self), *final(self)),
            },
    {
        match self.currently_editing {
            Some(CurrentlyEditing::Year) => push_char(&mut self.year_input, c),
            Some(CurrentlyEditing::Month) => push_char(&mut self.month_input, c),
            Some(CurrentlyEditing::Day) => push_char(&mut self.day_input, c),
            Some(CurrentlyEditing::Hour) => push_char(&mut self.hour_input, c),
            Some(CurrentlyEditing::Minute) => push_char(&mut self.minute_input, c),
            Some(CurrentlyEditing::Duration) => push_char(&mut self.duration_input, c),
            Some(CurrentlyEditing::Priority) => push_char(&mut self.priority_input, c),
            Some(CurrentlyEditing::Kwargs) => push_char(&mut self.kwarg_input, c),
            _ => {},
        }
    }

    /// Removes the last character of the buffer of the current field, if
    /// there is one; other states take no input.
    pub fn backspace_input(&mut self)
        ensures
            final(self).currently_editing == old(self).currently_editing,
            same_lists(*old(self), *final(self)),
            same_ledgers(*old(self), *final(self)),
            final(self).current_screen == old(self).current_screen,
            final(self).last_err == old(self).last_err,
            match old(self).currently_editing {
                Some(f) => if editable(f) {
                    buffer_view(*final(self), f) == chopped(buffer_view(*old(self), f))
                        && same_inputs_except(*old(self), *final(self), f)
                } else {
                    same_inputs(*old(self), *final(self))
                },
                None => same_inputs(*old(self), *final(self)),
            },
    {
        match self.currently_editing {
            Some(CurrentlyEditing::Year) => pop_char(&mut self.year_input),
            Some(CurrentlyEditing::Month) => pop_char(&mut self.month_input),
            Some(CurrentlyEditing::Day) => pop_char(&mut self.day_input),
            Some(CurrentlyEditing::Hour) => pop_char(&mut self.hour_input),
            Some(CurrentlyEditing::Minute) => pop_char(&mut self.minute_input),
            Some(CurrentlyEditing::Duration) => pop_char(&mut self.duration_input),
            Some(CurrentlyEditing::Priority) => pop_char(&mut self.priority_input),
            Some(CurrentlyEditing::Kwargs) => pop_char(&mut self.kwarg_input),
            _ => {},
        }
    }

    /// Abandons the entry in progress: clears every buffer and the error,
    /// and leaves the add flow, never touching the live list.
    pub fn cancel(&mut self)
        ensures
            inputs_clear(*final(self)),
            final(self).currently_editing is None,
            final(self).last_err is None,
            final(self).current_screen == CurrentScreen::Main,
            same_lists(*old(self), *final(self)),
            same_ledgers(*old(self), *final(self)),
    {
        self.year_input = String::new();
        self.month_input = String::new();
        self.day_input = String::new();
        self.hour_input = String::new();
        self.minute_input = String::new();
        self.duration_input = String::new();
        self.priority_input = String::new();
        self.kwarg_input = String::new();
        self.last_err = None;
        self.currently_editing = None;
        self.current_screen = CurrentScreen::Main;
    }
}

/// A sequence without its last element; the empty sequence stays empty.
pub open spec fn chopped(s: Seq<char>) -> Seq<char> {
    if s.len() == 0 {
        s
    } else {
        s.drop_last()
    }
}

/// The tokens with the empty ones dropped.
pub open spec fn keep_nonempty(ts: Seq<Seq<char>>) -> Seq<Seq<char>>
    decreases ts.len(),
{
    if ts.len() == 0 {
        Seq::empty()
    } else if ts[0].len() > 0 {
        seq![ts[0]] + keep_nonempty(ts.drop_first())
    } else {
        keep_nonempty(ts.drop_first())
    }
}

/// The kwarg tokens of the kwargs buffer: split on spaces, empty tokens
/// dropped.
#[verifier::loop_isolation(false)]
fn kwargs_from_input(input: &String) -> (r: Vec<String>)
    ensures
        r.deep_view() == keep_nonempty(split_sp(input@)),
{
    let toks = split_spaces(input.as_str());
    let ghost full = toks.deep_view();
    let mut out: Vec<String> = Vec::new();
    let n = toks.len();
    let mut i: usize = 0;
    proof {
        assert(full.skip(0) =~= full);
    }
    while i < n
        invariant
            0 <= i <= n,
            keep_nonempty(full) =~= out.deep_view() + keep_nonempty(full.skip(i as int)),
        decreases n - i,
    {
        proof {
            assert(full.skip(i as int)[0] == full[i as int]);
            assert(full.skip(i as int).drop_first() =~= full.skip(i + 1));
        }
        if !toks[i].as_str().is_empty() {
            let ghost old_out = out.deep_view();
            out.push(toks[i].clone());
            proof {
                assert(out.deep_view() =~= old_out.push(full[i as int]));
                assert(keep_nonempty(full) =~= out.deep_view() + keep_nonempty(
                    full.skip(i + 1),
                ));
            }
        }
        i = i + 1;
    }
    proof {
        assert(full.skip(n as int) =~= Seq::<Seq<char>>::empty());
        assert(out.deep_view() =~= keep_nonempty(full));
    }
    out
}

/// The form field that each error kind implicates, used to re-focus the
/// cursor after a failed submit.
pub open spec fn route_field(e: ErrorView) -> CurrentlyEditing {
    match e {
        ErrorView::InvalidDate(_) => CurrentlyEditing::Year,
        ErrorView::InvalidTime(_) => CurrentlyEditing::Hour,
        ErrorView::InvalidDuration(_) => CurrentlyEditing::Duration,
        ErrorView::InvalidPriority(_) => CurrentlyEditing::Priority,
        ErrorView::InvalidTask(_) => CurrentlyEditing::Experiment,
        ErrorView::InvalidMode(_) => CurrentlyEditing::SchedulingMode,
        ErrorView::InvalidKwargs(_) => CurrentlyEditing::Kwargs,
        ErrorView::MissingFields => CurrentlyEditing::Year,
    }
}

/// Decides the implicated field of an error, as `route_field` says.
fn route_field_exec(e: &ScheduleError) -> (r: CurrentlyEditing)
    ensures
        r == route_field(e@),
{
    match e {
        ScheduleError::InvalidDate(_) => CurrentlyEditing::Year,
        ScheduleError::InvalidTime(_) => CurrentlyEditing::Hour,
        ScheduleError::InvalidDuration(_) => CurrentlyEditing::Duration,
        ScheduleError::InvalidPriority(_) => CurrentlyEditing::Priority,
        ScheduleError::InvalidTask(_) => CurrentlyEditing::Experiment,
        ScheduleError::InvalidMode(_) => CurrentlyEditing::SchedulingMode,
        ScheduleError::InvalidKwargs(_) => CurrentlyEditing::Kwargs,
        ScheduleError::MissingFields => CurrentlyEditing::Year,
    }
}

/// What reading the year buffer yields: a digit token within the year
/// window, or an `InvalidDate` routed to the year field.
pub open spec fn spec_year(a: App) -> Result<u16, (CurrentlyEditing, ErrorView)> {
    match parse_nat(a.year_input@) {
        Some(y) => if y > u64::MAX {
            Err(
                (
                    CurrentlyEditing::Year,
                    ErrorView::InvalidDate("Bad year: "@ + a.year_input@),
                ),
            )
        } else if 2000 <= y <= 2050 {
            Ok(y as u16)
        } else {
            Err((CurrentlyEditing::Year, ErrorView::InvalidDate(msg_year_range(y))))
        },
        None => Err(
            (CurrentlyEditing::Year, ErrorView::InvalidDate("Bad year: "@ + a.year_input@)),
        ),
    }
}

/// What reading the month buffer yields.
pub open spec fn spec_month(a: App) -> Result<u8, (CurrentlyEditing, ErrorView)> {
    match parse_nat(a.month_input@) {
        Some(m) => if m > u64::MAX {
            Err(
                (
                    CurrentlyEditing::Month,
                    ErrorView::InvalidDate("Bad month: "@ + a.month_input@),
                ),
            )
        } else if 1 <= m <= 12 {
            Ok(m as u8)
        } else {
            Err((CurrentlyEditing::Month, ErrorView::InvalidDate(msg_month_range(m))))
        },
        None => Err(
            (CurrentlyEditing::Month, ErrorView::InvalidDate("Bad month: "@ + a.month_input@)),
        ),
    }
}

/// What reading the day buffer yields.
pub open spec fn spec_day(a: App) -> Result<u8, (CurrentlyEditing, ErrorView)> {
    match parse_nat(a.day_input@) {
        Some(d) => if d > u64::MAX {
            Err(
                (CurrentlyEditing::Day, ErrorView::InvalidDate("Bad day: "@ + a.day_input@)),
            )
        } else if 1 <= d <= 31 {
            Ok(d as u8)
        } else {
            Err((CurrentlyEditing::Day, ErrorView::InvalidDate(msg_day_range(d))))
        },
        None => Err(
            (CurrentlyEditing::Day, ErrorView::InvalidDate("Bad day: "@ + a.day_input@)),
        ),
    }
}

/// What reading the hour buffer yields.
pub open spec fn spec_hour(a: App) -> Result<u8, (CurrentlyEditing, ErrorView)> {
    match parse_nat(a.hour_input@) {
        Some(h) => if h > u64::MAX {
            Err(
                (
                    CurrentlyEditing::Hour,
                    ErrorView::InvalidTime("Bad hour: "@ + a.hour_input@),
                ),
            )
        } else if h <= 23 {
            Ok(h as u8)
        } else {
            Err((CurrentlyEditing::Hour, ErrorView::InvalidTime(msg_hour_range(h))))
        },
        None => Err(
            (CurrentlyEditing::Hour, ErrorView::InvalidTime("Bad hour: "@ + a.hour_input@)),
        ),
    }
}

/// What reading the minute buffer yields.
pub open spec fn spec_minute(a: App) -> Result<u8, (CurrentlyEditing, ErrorView)> {
    match parse_nat(a.minute_input@) {
        Some(m) => if m > u64::MAX {
            Err(
                (
                    CurrentlyEditing::Minute,
                    ErrorView::InvalidTime("Bad minute: "@ + a.minute_input@),
                ),
            )
        } else if m <= 59 {
            Ok(m as u8)
        } else {
            Err((CurrentlyEditing::Minute, ErrorView::InvalidTime(msg_minute_range(m))))
        },
        None => Err(
            (
                CurrentlyEditing::Minute,
                ErrorView::InvalidTime("Bad minute: "@ + a.minute_input@),
            ),
        ),
    }
}

/// What reading the duration buffer yields: `-` for the open-ended
/// duration, else a count of minutes.
pub open spec fn spec_duration_field(a: App) -> Result<ScdDuration, (CurrentlyEditing, ErrorView)> {
    if a.duration_input@ == "-"@ {
        Ok(ScdDuration::Infinite)
    } else {
        match spec_parse_duration(a.duration_input@) {
            Ok(v) => Ok(ScdDuration::Finite(v)),
            Err(e) => Err((CurrentlyEditing::Duration, e)),
        }
    }
}

/// What reading the priority buffer yields.
pub open spec fn spec_priority_field(a: App) -> Result<u8, (CurrentlyEditing, ErrorView)> {
    match parse_nat(a.priority_input@) {
        Some(v) => if v > 255 {
            Err((CurrentlyEditing::Priority, ErrorView::InvalidPriority(a.priority_input@)))
        } else if v > 20 {
            Err(
                (
                    CurrentlyEditing::Priority,
                    ErrorView::InvalidPriority(msg_prio_over(dec_digits(v))),
                ),
            )
        } else {
            Ok(v as u8)
        },
        None => Err(
            (CurrentlyEditing::Priority, ErrorView::InvalidPriority(a.priority_input@)),
        ),
    }
}

/// The task the session will submit: the selected name, or the default.
pub open spec fn spec_task(a: App) -> Seq<char> {
    match a.experiment_list.selected {
        Some(i) => if i < a.experiment_list.items@.len() {
            a.experiment_list.items@[i as int]@
        } else {
            "normalscan"@
        },
        None => "normalscan"@,
    }
}

/// The mode the session will submit: the selected one, or the default.
pub open spec fn spec_mode_sel(a: App) -> SchedulingMode {
    match a.mode_list.selected {
        Some(i) => if i < a.mode_list.items@.len() {
            a.mode_list.items@[i as int]
        } else {
            SchedulingMode::Common
        },
        None => SchedulingMode::Common,
    }
}

/// The kwargs the session will submit.
pub open spec fn spec_kwargs(a: App) -> Seq<Seq<char>> {
    keep_nonempty(split_sp(a.kwarg_input@))
}

/// What submitting the buffers yields: each numeric buffer read and
/// range-checked in the fixed field order, the calendar combination
/// checked, the selections resolved, and the construction invariants
/// applied; a failure names the form field it implicates.
pub open spec fn spec_line_from_inputs(a: App) -> Result<LineView, (CurrentlyEditing, ErrorView)> {
    match spec_year(a) {
        Err(e) => Err(e),
        Ok(year) => match spec_month(a) {
            Err(e) => Err(e),
            Ok(month) => match spec_day(a) {
                Err(e) => Err(e),
                Ok(day) => match spec_hour(a) {
                    Err(e) => Err(e),
                    Ok(hour) => match spec_minute(a) {
                        Err(e) => Err(e),
                        Ok(minute) => if !(day <= days_in_month(year as int, month as int)) {
                            Err(
                                (
                                    CurrentlyEditing::Day,
                                    ErrorView::InvalidDate(
                                        msg_no_such_date(year as nat, month as nat, day as nat),
                                    ),
                                ),
                            )
                        } else {
                            match spec_duration_field(a) {
                                Err(e) => Err(e),
                                Ok(dur) => match spec_priority_field(a) {
                                    Err(e) => Err(e),
                                    Ok(prio) => match spec_validate(
                                        Timestamp {
                                            date: Date { year, month, day },
                                            time: Time { hour, minute },
                                        },
                                        dur,
                                        prio,
                                        spec_task(a),
                                        spec_mode_sel(a),
                                        spec_kwargs(a),
                                    ) {
                                        Ok(v) => Ok(v),
                                        Err(e) => Err((route_field(e), e)),
                                    },
                                },
                            }
                        },
                    },
                },
            },
        },
    }
}

impl App {
    /// Reads every buffer and selection and constructs the entry, as
    /// `spec_line_from_inputs` says.
    fn create_line_from_inputs(&self) -> (r: Result<ScheduleLine, (CurrentlyEditing, ScheduleError)>)
        ensures
            match r {
                Ok(l) => spec_line_from_inputs(*self) == Ok::<LineView, (CurrentlyEditing, ErrorView)>(l@),
                Err((f, e)) => spec_line_from_inputs(*self) == Err::<LineView, (CurrentlyEditing, ErrorView)>((f, e@)),
            },
    {
        let year: u16 = match parse_u64(self.year_input.as_str()) {
            Some(y) => {
                if y < 2000 || y > 2050 {
                    let t = dec_string(y);
                    return Err(
                        (
                            CurrentlyEditing::Year,
                            ScheduleError::InvalidDate(
                                concat3("Bad year: ", t.as_str(), " not in range [2000, 2050]"),
                            ),
                        ),
                    );
                }
                y as u16
            },
            None => {
                return Err(
                    (
                        CurrentlyEditing::Year,
                        ScheduleError::InvalidDate(
                            concat2("Bad year: ", self.year_input.as_str()),
                        ),
                    ),
                );
            },
        };
        let month: u8 = match parse_u64(self.month_input.as_str()) {
            Some(m) => {
                if m < 1 || m > 12 {
                    let t = dec_string(m);
                    return Err(
                        (
                            CurrentlyEditing::Month,
                            ScheduleError::InvalidDate(
                                concat3("Bad month: ", t.as_str(), " not in range [1, 12]"),
                            ),
                        ),
                    );
                }
                m as u8
            },
            None => {
                return Err(
                    (
                        CurrentlyEditing::Month,
                        ScheduleError::InvalidDate(
                            concat2("Bad month: ", self.month_input.as_str()),
                        ),
                    ),
                );
            },
        };
        let day: u8 = match parse_u64(self.day_input.as_str()) {
            Some(d) => {
                if d < 1 || d > 31 {
                    let t = dec_string(d);
                    return Err(
                        (
                            CurrentlyEditing::Day,
                            ScheduleError::InvalidDate(
                                concat3("Bad day: ", t.as_str(), " not in range [1, 31]"),
                            ),
                        ),
                    );
                }
                d as u8
            },
            None => {
                return Err(
                    (
                        CurrentlyEditing::Day,
                        ScheduleError::InvalidDate(concat2("Bad day: ", self.day_input.as_str())),
                    ),
                );
            },
        };
        let hour: u8 = match parse_u64(self.hour_input.as_str()) {
            Some(h) => {
                if h > 23 {
                    let t = dec_string(h);
                    return Err(
                        (
                            CurrentlyEditing::Hour,
                            ScheduleError::InvalidTime(
                                concat3("Bad hour: ", t.as_str(), " not in range [0, 23]"),
                            ),
                        ),
                    );
                }
                h as u8
            },
            None => {
                return Err(
                    (
                        CurrentlyEditing::Hour,
                        ScheduleError::InvalidTime(
                            concat2("Bad hour: ", self.hour_input.as_str()),
                        ),
                    ),
                );
            },
        };
        let minute: u8 = match parse_u64(self.minute_input.as_str()) {
            Some(m) => {
                if m > 59 {
                    let t = dec_string(m);
                    return Err(
                        (
                            CurrentlyEditing::Minute,
                            ScheduleError::InvalidTime(
                                concat3("Bad minute: ", t.as_str(), " not in range [0, 59]"),
                            ),
                        ),
                    );
                }
                m as u8
            },
            None => {
                return Err(
                    (
                        CurrentlyEditing::Minute,
                        ScheduleError::InvalidTime(
                            concat2("Bad minute: ", self.minute_input.as_str()),
                        ),
                    ),
                );
            },
        };
        if !ymd_in_calendar(year, month, day) {
            return Err(
                (
                    CurrentlyEditing::Day,
                    ScheduleError::InvalidDate(no_such_date_msg(year, month, day)),
                ),
            );
        }
        let dash = "-".to_owned();
        let duration: ScdDuration = if self.duration_input.eq(&dash) {
            ScdDuration::Infinite
        } else {
            match parse_duration(&self.duration_input) {
                Ok(v) => ScdDuration::Finite(v),
                Err(e) => {
                    return Err((CurrentlyEditing::Duration, e));
                },
            }
        };
        let priority: u8 = match parse_u64(self.priority_input.as_str()) {
            Some(v) => {
                if v > 255 {
                    return Err(
                        (
                            CurrentlyEditing::Priority,
                            ScheduleError::InvalidPriority(self.priority_input.clone()),
                        ),
                    );
                }
                if v > 20 {
                    let t = dec_string(v);
                    return Err(
                        (
                            CurrentlyEditing::Priority,
                            ScheduleError::InvalidPriority(concat2(t.as_str(), " > 20")),
                        ),
                    );
                }
                v as u8
            },
            None => {
                return Err(
                    (
                        CurrentlyEditing::Priority,
                        ScheduleError::InvalidPriority(self.priority_input.clone()),
                    ),
                );
            },
        };
        let experiment: String = match self.experiment_list.selected {
            Some(i) => if i < self.experiment_list.items.len() {
                self.experiment_list.items[i].clone()
            } else {
                "normalscan".to_owned()
            },
            None => "normalscan".to_owned(),
        };
        let scheduling_mode: SchedulingMode = match self.mode_list.selected {
            Some(i) => if i < self.mode_list.items.len() {
                self.mode_list.items[i]
            } else {
                SchedulingMode::Common
            },
            None => SchedulingMode::Common,
        };
        let kwargs = kwargs_from_input(&self.kwarg_input);
        let timestamp = Timestamp {
            date: Date { year, month, day },
            time: Time { hour, minute },
        };
        match ScheduleLine::new(
            timestamp,
            duration,
            priority,
            &experiment,
            &scheduling_mode,
            kwargs,
        ) {
            Ok(l) => Ok(l),
            Err(e) => {
                let f = route_field_exec(&e);
                Err((f, e))
            },
        }
    }

    /// Submits the buffers as a new entry. On success the entry joins the
    /// live list, re-sorted descending, and the additions ledger; every
    /// buffer is cleared and the add flow ends. On failure every buffer,
    /// list and ledger stands untouched, the error is recorded, and the
    /// cursor lands on exactly the field the error implicates.
    pub fn save_entry(&mut self) -> (r: Result<(), ScheduleError>)
        ensures
            final(self).current_screen == old(self).current_screen,
            match spec_line_from_inputs(*old(self)) {
                Ok(lv) => {
                    &&& r is Ok
                    &&& final(self).last_err is None
                    &&& final(self).currently_editing is None
                    &&& inputs_clear(*final(self))
                    &&& sorted_desc(final(self).schedule_list.items@)
                    &&& (exists|l: ScheduleLine| #![auto]
                        l@ == lv && final(self).schedule_list.items@.to_multiset() == old(
                            self,
                        ).schedule_list.items@.to_multiset().insert(l))
                    &&& (exists|l: ScheduleLine| #![auto]
                        l@ == lv && final(self).additions@ == old(self).additions@.push(l))
                    &&& final(self).deletions == old(self).deletions
                    &&& final(self).experiment_list.items == old(self).experiment_list.items
                    &&& final(self).experiment_list.selected == old(
                        self,
                    ).experiment_list.selected
                    &&& final(self).mode_list.items == old(self).mode_list.items
                    &&& final(self).mode_list.selected == old(self).mode_list.selected
                    &&& final(self).schedule_list.selected == old(self).schedule_list.selected
                    &&& final(self).schedule_list.offset == old(self).schedule_list.offset
                },
                Err((f, ev)) => {
                    &&& (r matches Err(e) && e@ == ev)
                    &&& (final(self).last_err matches Some(e2) && e2@ == ev)
                    &&& final(self).currently_editing == Some(f)
                    &&& same_inputs(*old(self), *final(self))
                    &&& same_lists(*old(self), *final(self))
                    &&& same_ledgers(*old(self), *final(self))
                },
            },
    {
        broadcast use vstd::seq_lib::group_to_multiset_ensures;

        match self.create_line_from_inputs() {
            Err((f, e)) => {
                self.last_err = Some(e.duplicate());
                self.currently_editing = Some(f);
                Err(e)
            },
            Ok(new_line) => {
                let copy = new_line.duplicate();
                self.additions.push(copy);
                self.last_err = None;
                self.schedule_list.items.push(new_line);
                sort_descending(&mut self.schedule_list.items);
                self.year_input = String::new();
                self.month_input = String::new();
                self.day_input = String::new();
                self.hour_input = String::new();
                self.minute_input = String::new();
                self.duration_input = String::new();
                self.priority_input = String::new();
                self.kwarg_input = String::new();
                self.currently_editing = None;
                Ok(())
            },
        }
    }

    /// Moves the selected entry, if any, from the live list into the
    /// deletions ledger, and clears the selection.
    pub fn remove_schedule_line(&mut self)
        ensures
            final(self).schedule_list.selected is None,
            final(self).schedule_list.offset == old(self).schedule_list.offset,
            same_inputs(*old(self), *final(self)),
            final(self).experiment_list == old(self).experiment_list,
            final(self).mode_list == old(self).mode_list,
            final(self).additions == old(self).additions,
            final(self).current_screen == old(self).current_screen,
            final(self).currently_editing == old(self).currently_editing,
            final(self).last_err == old(self).last_err,
            match old(self).schedule_list.selected {
                Some(i) => if i < old(self).schedule_list.items@.len() {
                    final(self).schedule_list.items@ == old(self).schedule_list.items@.remove(
                        i as int,
                    ) && final(self).deletions@ == old(self).deletions@.push(
                        old(self).schedule_list.items@[i as int],
                    )
                } else {
                    final(self).schedule_list.items == old(self).schedule_list.items
                        && final(self).deletions == old(self).deletions
                },
                None => final(self).schedule_list.items == old(self).schedule_list.items
                    && final(self).deletions == old(self).deletions,
            },
    {
        match self.schedule_list.selected {
            Some(i) => {
                if i < self.schedule_list.items.len() {
                    let x = self.schedule_list.items.remove(i);
                    self.deletions.push(x);
                }
            },
            None => {},
        }
        self.schedule_list.unselect();
    }

    /// Decodes every line of a loaded schedule file, in order, and
    /// returns the entries most recent first (the file stores them oldest
    /// first). The first line that fails to decode aborts the whole load
    /// with its error.
    #[verifier::loop_isolation(false)]
    #[verifier::rlimit(30)]
    pub fn load_schedule(lines: &Vec<String>) -> (r: Result<Vec<ScheduleLine>, ScheduleError>)
        ensures
            match r {
                Ok(v) => v@.len() == lines@.len() && (forall|i: int|
                    0 <= i < lines@.len() ==> spec_decode(#[trigger] lines.deep_view()[i])
                        == Ok::<LineView, ErrorView>(v@[lines@.len() - 1 - i]@)),
                Err(e) => exists|i: int|
                    #![auto]
                    0 <= i < lines@.len() && spec_decode(lines.deep_view()[i]) == Err::<
                        LineView,
                        ErrorView,
                    >(e@) && (forall|j: int|
                        0 <= j < i ==> spec_decode(#[trigger] lines.deep_view()[j]) is Ok),
            },
    {
        let n = lines.len();
        let mut fwd: Vec<ScheduleLine> = Vec::new();
        let mut i: usize = 0;
        while i < n
            invariant
                0 <= i <= n,
                fwd@.len() == i,
                forall|j: int|
                    0 <= j < i ==> spec_decode(#[trigger] lines.deep_view()[j]) == Ok::<
                        LineView,
                        ErrorView,
                    >(fwd@[j]@),
            decreases n - i,
        {
            match ScheduleLine::decode(&lines[i]) {
                Ok(l) => {
                    fwd.push(l);
                },
                Err(e) => {
                    proof {
                        assert(spec_decode(lines.deep_view()[i as int]) == Err::<
                            LineView,
                            ErrorView,
                        >(e@));
                        assert(forall|j: int|
                            0 <= j < i as int ==> spec_decode(
                                #[trigger] lines.deep_view()[j],
                            ) is Ok);
                    }
                    return Err(e);
                },
            }
            i = i + 1;
        }
        let mut rev: Vec<ScheduleLine> = Vec::new();
        while fwd.len() > 0
            invariant
                fwd@.len() + rev@.len() == n,
                forall|j: int|
                    0 <= j < fwd@.len() ==> spec_decode(#[trigger] lines.deep_view()[j]) == Ok::<
                        LineView,
                        ErrorView,
                    >(fwd@[j]@),
                forall|j: int|
                    0 <= j < rev@.len() ==> spec_decode(#[trigger] lines.deep_view()[n - 1 - j])
                        == Ok::<LineView, ErrorView>(rev@[j]@),
            decreases fwd@.len(),
        {
            match fwd.pop() {
                Some(x) => {
                    rev.push(x);
                },
                None => {},
            }
        }
        proof {
            assert forall|k: int| 0 <= k < n implies spec_decode(
                #[trigger] lines.deep_view()[k],
            ) == Ok::<LineView, ErrorView>(rev@[n - 1 - k]@) by {
                let j = n - 1 - k;
                assert(spec_decode(lines.deep_view()[n - 1 - j]) == Ok::<LineView, ErrorView>(
                    rev@[j]@,
                ));
            }
        }
        Ok(rev)
    }
}

/// An explicit model of the schedule file and its sibling backup, as the
/// save protocol sees them: plain bytes.
pub struct ScheduleFiles {
    pub schedule: Vec<u8>,
    pub backup: Option<Vec<u8>>,
}

/// The views of a sequence of entries.
pub open spec fn views_of(s: Seq<ScheduleLine>) -> Seq<LineView> {
    Seq::new(s.len(), |i: int| s[i]@)
}

/// One encoded entry as file bytes: its UTF-8 encoding and a newline.
pub open spec fn line_bytes(v: LineView) -> Seq<u8> {
    encode_utf8(crate::schedule::spec_encode(v)) + seq![10u8]
}

/// The whole file body for an in-memory list held most recent first: the
/// entries in ascending order, one encoded line each, newline-terminated.
pub open spec fn spec_schedule_bytes(lines: Seq<LineView>) -> Seq<u8>
    decreases lines.len(),
{
    if lines.len() == 0 {
        Seq::empty()
    } else {
        spec_schedule_bytes(lines.drop_first()) + line_bytes(lines[0])
    }
}

impl App {
    /// The backup-then-overwrite save step, over the explicit file model.
    /// `copy_ok` reports whether the backup copy succeeded. On failure the
    /// save is refused and both files stand byte-for-byte untouched; only
    /// on success are the original bytes kept as the backup and the file
    /// overwritten with the current entries in ascending order.
    #[verifier::loop_isolation(false)]
    pub fn save_schedule(&self, files: &mut ScheduleFiles, copy_ok: bool) -> (r: bool)
        ensures
            !copy_ok ==> *final(files) == *old(files) && r == false,
            copy_ok ==> r == true && (final(files).backup matches Some(b) && b@ == old(
                files,
            ).schedule@) && final(files).schedule@ == spec_schedule_bytes(
                views_of(self.schedule_list.items@),
            ),
    {
        if !copy_ok {
            return false;
        }
        let backup = files.schedule.clone();
        proof {
            assert forall|k: int| 0 <= k < files.schedule@.len() implies backup@[k]
                == #[trigger] files.schedule@[k] by {
                assert(vstd::pervasive::cloned::<u8>(files.schedule[k], backup[k]));
            }
            assert(backup@ =~= files.schedule@);
        }
        files.backup = Some(backup);
        let ghost vs = views_of(self.schedule_list.items@);
        let n = self.schedule_list.items.len();
        let mut out: Vec<u8> = Vec::new();
        let mut i: usize = n;
        proof {
            assert(vs.skip(n as int) =~= Seq::<LineView>::empty());
        }
        while i > 0
            invariant
                0 <= i <= n,
                out@ == spec_schedule_bytes(vs.skip(i as int)),
            decreases i,
        {
            i = i - 1;
            let line = self.schedule_list.items[i].format();
            let mut bs = line.as_str().as_bytes_vec();
            out.append(&mut bs);
            out.push(10);
            proof {
                assert(vs.skip(i as int).drop_first() =~= vs.skip(i + 1));
                assert(vs.skip(i as int)[0] == self.schedule_list.items@[i as int]@);
                assert(out@ =~= spec_schedule_bytes(vs.skip(i as int)));
            }
        }
        proof {
            assert(vs.skip(0) =~= vs);
        }
        files.schedule = out;
        true
    }
}

} // verus!
