//! One machine setup as read from the database, and the decision whether it
//! took too long.

use vstd::prelude::*;
use crate::breaks::{break_minutes, compute_break_minutes, standard_breaks, BreakMode};
use crate::config::Settings;
use crate::timestamp::{minutes_between, minutes_toward_zero, Timestamp};

verus! {

/// One recorded setup of a machine.
#[derive(Clone, Debug)]
pub struct PartData {
    pub part_name: String,
    pub setup: i32,
    pub order: String,
    pub machine: String,
    pub operator: String,
    pub start_setup_time: Timestamp,
    /// When machining started, which ends the setup.
    pub end_setup_time: Timestamp,
    pub operators_comment: String,
    /// Reported downtime minutes during the setup, as decimal text.
    pub downtimes: String,
}

/// The outcome of holding one setup against its machine's limit.
#[derive(Clone, Copy, Debug, PartialEq, Eq, Structural)]
pub struct Evaluation {
    /// The setup goes into the report.
    pub included: bool,
    pub productive_minutes: i64,
    pub limit: i32,
}

/// A setup is reported when its productive minutes exceed the limit.
pub open spec fn is_long_setup(productive_minutes: int, limit: int) -> bool {
    productive_minutes > limit
}

/// The mode that `PartData::breaks_between` uses for its flag.
pub open spec fn mode_of(calc_on_end: bool) -> BreakMode {
    if calc_on_end {
        BreakMode::AttributeAtEnd
    } else {
        BreakMode::AttributeAtStart
    }
}

impl PartData {
    pub open spec fn wf(&self) -> bool {
        self.start_setup_time.wf() && self.end_setup_time.wf()
    }

    /// Whole minutes from the start of the setup to the start of machining.
    pub open spec fn raw_minutes(&self) -> int {
        minutes_toward_zero(
            self.end_setup_time.total_seconds() - self.start_setup_time.total_seconds(),
        )
    }

    /// Break minutes inside the setup, by the times of day of its ends.
    pub open spec fn break_minutes(&self, mode: BreakMode) -> int {
        break_minutes(
            standard_breaks(),
            self.start_setup_time.second as int,
            self.end_setup_time.second as int,
            mode,
        )
    }

    /// Minutes of the setup that count against the machine's limit.
    pub open spec fn productive_minutes(&self) -> int {
        self.raw_minutes() - self.break_minutes(BreakMode::AttributeAtStart)
    }

    /// Minutes of the setup as the report shows them.
    pub open spec fn report_minutes(&self) -> int {
        self.raw_minutes() - self.break_minutes(BreakMode::AttributeAtEnd)
    }

    /// Whether the setup goes into the report under `settings`.
    pub open spec fn is_long(&self, settings: &Settings) -> bool {
        is_long_setup(self.productive_minutes(), settings.setup_limit(self.machine@) as int)
    }

    /// Break minutes inside the setup: charged at the end of the interval
    /// when `calc_on_end` holds, at its start otherwise.
    pub fn breaks_between(&self, calc_on_end: bool) -> (r: u32)
        requires
            self.wf(),
        ensures
            r == self.break_minutes(mode_of(calc_on_end)),
    {
        let mode = if calc_on_end {
            BreakMode::AttributeAtEnd
        } else {
            BreakMode::AttributeAtStart
        };
        compute_break_minutes(self.start_setup_time.second, self.end_setup_time.second, mode)
    }

    /// Minutes of the setup as the report shows them: elapsed minutes less the
    /// breaks charged at the end.
    pub fn setup_minutes(&self) -> (r: i64)
        requires
            self.wf(),
        ensures
            r == self.report_minutes(),
    {
        let raw = minutes_between(self.start_setup_time, self.end_setup_time);
        raw - self.breaks_between(true) as i64
    }

    /// Holds the setup against `limit`.
    pub fn evaluate_against(&self, limit: i32) -> (r: Evaluation)
        requires
            self.wf(),
        ensures
            r.productive_minutes == self.productive_minutes(),
            r.limit == limit,
            r.included == is_long_setup(self.productive_minutes(), limit as int),
    {
        let raw = minutes_between(self.start_setup_time, self.end_setup_time);
        let productive = raw - self.breaks_between(false) as i64;
        Evaluation { included: productive > limit as i64, productive_minutes: productive, limit }
    }

    /// Holds the setup against its machine's limit in `settings`.
    pub fn evaluate(&self, settings: &Settings) -> (r: Evaluation)
        requires
            self.wf(),
        ensures
            r.productive_minutes == self.productive_minutes(),
            r.limit == settings.setup_limit(self.machine@),
            r.included == self.is_long(settings),
    {
        let limit = settings.get_setup_limit(self.machine.as_str());
        self.evaluate_against(limit)
    }
}

/// Of two setups on the same machine with the same break minutes, the longer
/// one is reported whenever the shorter one is.
pub proof fn lemma_longer_setup_stays_included(a: &PartData, b: &PartData, settings: &Settings)
    requires
        a.machine@ == b.machine@,
        a.break_minutes(BreakMode::AttributeAtStart) == b.break_minutes(BreakMode::AttributeAtStart),
        a.raw_minutes() <= b.raw_minutes(),
        a.is_long(settings),
    ensures
        b.is_long(settings),
{
}

} // verus!
