//! Shift breaks that fall inside a setup interval.

use vstd::prelude::*;

verus! {

/// How the breaks inside a setup interval are charged to it.
#[derive(Clone, Copy, Debug, PartialEq, Eq, Structural)]
pub enum BreakMode {
    /// Each boundary moves earlier by its break's lead, and each break that
    /// is counted pushes the end of the interval back by its length.
    AttributeAtStart,
    /// Boundaries stay where they are and the interval keeps its end.
    AttributeAtEnd,
}

/// One scheduled break of a shift.
#[derive(Clone, Copy, Debug, PartialEq, Eq, Structural)]
pub struct ShiftBreak {
    /// Seconds past midnight at which the break begins.
    pub boundary: u32,
    /// Seconds by which the boundary moves earlier in `AttributeAtStart` mode.
    pub lead: u32,
    /// Length of the break in minutes.
    pub minutes: u32,
}

impl ShiftBreak {
    pub open spec fn wf(self) -> bool {
        &&& self.boundary < 86400
        &&& self.lead <= self.boundary
        &&& self.minutes <= 1440
    }

    /// The boundary as a time of day, moved earlier by the lead in
    /// `AttributeAtStart` mode.
    pub open spec fn time_of_day(self, mode: BreakMode) -> int {
        if mode == BreakMode::AttributeAtStart {
            self.boundary - self.lead
        } else {
            self.boundary as int
        }
    }

    /// Where the boundary stands on the timeline of an interval that begins at
    /// `start` on day zero; `crosses` tells whether the interval runs past
    /// midnight. On such an interval a boundary at or before the start is
    /// taken on the following day.
    pub open spec fn position(self, mode: BreakMode, start: int, crosses: bool) -> int {
        let t = self.time_of_day(mode);
        if crosses && t <= start {
            t + 86400
        } else {
            t
        }
    }

    /// Seconds by which counting this break moves the end of the interval.
    pub open spec fn extension(self, mode: BreakMode) -> int {
        if mode == BreakMode::AttributeAtStart {
            self.minutes * 60
        } else {
            0
        }
    }
}

/// Break minutes that the breaks of `table`, taken in order, add to the
/// interval from `start` (exclusive) to `end` (inclusive).
pub open spec fn breaks_from(
    table: Seq<ShiftBreak>,
    start: int,
    end: int,
    mode: BreakMode,
    crosses: bool,
) -> int
    decreases table.len(),
{
    if table.len() == 0 {
        0
    } else {
        let b = table[0];
        let t = b.position(mode, start, crosses);
        if start < t && t <= end {
            b.minutes + breaks_from(table.drop_first(), start, end + b.extension(mode), mode, crosses)
        } else {
            breaks_from(table.drop_first(), start, end, mode, crosses)
        }
    }
}

/// Break minutes charged to a setup from `start` to `end`, both in seconds
/// past midnight of the start's day. An `end` before `start` is a time of day
/// on the following day.
pub open spec fn break_minutes(table: Seq<ShiftBreak>, start: int, end: int, mode: BreakMode) -> int {
    let e = if end < start {
        end + 86400
    } else {
        end
    };
    breaks_from(table, start, e, mode, e >= 86400)
}

/// The breaks of the day and night shifts, in the order in which they are
/// evaluated.
pub open spec fn standard_breaks() -> Seq<ShiftBreak> {
    seq![
        ShiftBreak { boundary: 32400, lead: 840, minutes: 15 },
        ShiftBreak { boundary: 45000, lead: 1740, minutes: 30 },
        ShiftBreak { boundary: 54900, lead: 840, minutes: 15 },
        ShiftBreak { boundary: 81000, lead: 1740, minutes: 30 },
        ShiftBreak { boundary: 5400, lead: 1740, minutes: 30 },
        ShiftBreak { boundary: 16200, lead: 1740, minutes: 30 },
    ]
}

/// The ordered set of breaks of both shifts.
pub struct ShiftBreakWindow {
    pub breaks: Vec<ShiftBreak>,
}

impl ShiftBreakWindow {
    /// At most six breaks, three for each shift, each well formed.
    pub open spec fn wf(&self) -> bool {
        &&& self.breaks@.len() <= 6
        &&& forall|i: int| 0 <= i < self.breaks@.len() ==> (#[trigger] self.breaks@[i]).wf()
    }

    /// The day shift breaks at 09:00, 12:30 and 15:15 and the night shift
    /// breaks at 22:30, 01:30 and 04:30.
    pub fn standard() -> (r: ShiftBreakWindow)
        ensures
            r.breaks@ == standard_breaks(),
            r.wf(),
    {
        let breaks = vec![
            ShiftBreak { boundary: 32400, lead: 840, minutes: 15 },
            ShiftBreak { boundary: 45000, lead: 1740, minutes: 30 },
            ShiftBreak { boundary: 54900, lead: 840, minutes: 15 },
            ShiftBreak { boundary: 81000, lead: 1740, minutes: 30 },
            ShiftBreak { boundary: 5400, lead: 1740, minutes: 30 },
            ShiftBreak { boundary: 16200, lead: 1740, minutes: 30 },
        ];
        assert(breaks@ =~= standard_breaks());
        ShiftBreakWindow { breaks }
    }

    /// Break minutes charged to a setup from `start` to `end`, in seconds past
    /// midnight of the start's day; an `end` before `start` lies on the next day.
    pub fn break_minutes(&self, start: u32, end: u32, mode: BreakMode) -> (r: u32)
        requires
            self.wf(),
            start < 86400,
            end < 2 * 86400,
        ensures
            r == break_minutes(self.breaks@, start as int, end as int, mode),
    {
        let ghost table = self.breaks@;
        let mut cur_end: u64 = if end < start {
            end as u64 + 86400
        } else {
            end as u64
        };
        let crosses = cur_end >= 86400;
        let ghost end0 = cur_end as int;
        let mut total: u32 = 0;
        let mut i: usize = 0;
        assert(table.subrange(0, table.len() as int) =~= table);
        while i < self.breaks.len()
            invariant
                self.wf(),
                table == self.breaks@,
                start < 86400,
                end0 < 3 * 86400,
                crosses == (end0 >= 86400),
                end0 == (if end < start { end + 86400 } else { end as int }),
                0 <= i <= self.breaks@.len(),
                total <= i * 1440,
                cur_end <= end0 + i * 86400,
                total + breaks_from(table.subrange(i as int, table.len() as int), start as int, cur_end as int, mode, crosses)
                    == breaks_from(table, start as int, end0, mode, crosses),
            decreases self.breaks@.len() - i,
        {
            let b = self.breaks[i];
            assert(table.subrange(i as int, table.len() as int).drop_first()
                =~= table.subrange(i + 1, table.len() as int));
            assert(b.wf());
            let lead: u32 = if mode == BreakMode::AttributeAtStart {
                b.lead
            } else {
                0
            };
            let local: u32 = b.boundary - lead;
            let t: u64 = if crosses && local <= start {
                local as u64 + 86400
            } else {
                local as u64
            };
            assert(t == b.position(mode, start as int, crosses));
            if (start as u64) < t && t <= cur_end {
                total = total + b.minutes;
                if mode == BreakMode::AttributeAtStart {
                    cur_end = cur_end + b.minutes as u64 * 60;
                }
            }
            i = i + 1;
        }
        assert(table.subrange(i as int, table.len() as int) =~= Seq::<ShiftBreak>::empty());
        total
    }
}

/// Break minutes charged to a setup from `start` to `end` by the standard
/// breaks of both shifts.
pub fn compute_break_minutes(start: u32, end: u32, mode: BreakMode) -> (r: u32)
    requires
        start < 86400,
        end < 2 * 86400,
    ensures
        r == break_minutes(standard_breaks(), start as int, end as int, mode),
{
    ShiftBreakWindow::standard().break_minutes(start, end, mode)
}

proof fn lemma_breaks_from_empty_interval(table: Seq<ShiftBreak>, t: int, mode: BreakMode, crosses: bool)
    ensures
        breaks_from(table, t, t, mode, crosses) == 0,
    decreases table.len(),
{
    if table.len() > 0 {
        lemma_breaks_from_empty_interval(table.drop_first(), t, mode, crosses);
    }
}

/// An interval that ends where it starts is charged no break minutes, for
/// every break table and in either mode.
pub proof fn lemma_zero_length_interval_has_no_breaks(table: Seq<ShiftBreak>, t: int, mode: BreakMode)
    requires
        0 <= t < 86400,
    ensures
        break_minutes(table, t, t, mode) == 0,
{
    lemma_breaks_from_empty_interval(table, t, mode, false);
}

/// An interval whose end, as a time of day, comes before its start is charged
/// as the interval that ends at the same time of day on the next day.
pub proof fn lemma_wrapped_end_is_next_day(table: Seq<ShiftBreak>, start: int, end: int, mode: BreakMode)
    requires
        0 <= end < start < 86400,
    ensures
        break_minutes(table, start, end, mode) == break_minutes(table, start, end + 86400, mode),
{
}

} // verus!
