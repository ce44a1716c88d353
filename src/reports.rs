//! One report cycle: which setups go into the report, and when it is due.

use vstd::prelude::*;
use crate::config::Settings;
use crate::models::PartData;
use crate::schedule::{
    parse_time, parse_time_spec, seconds_until_next_run_zoned, zoned_wait, ScheduleError,
    ScheduleTarget,
};
use crate::timestamp::{local_now, local_offset_at, ClockReading, Timestamp};

verus! {

/// The setups of `parts` that exceed their machine's limit, in their order.
pub open spec fn long_setups(parts: Seq<PartData>, settings: Settings) -> Seq<PartData>
    decreases parts.len(),
{
    if parts.len() == 0 {
        Seq::empty()
    } else {
        let kept = long_setups(parts.drop_last(), settings);
        if parts.last().is_long(&settings) {
            kept.push(parts.last())
        } else {
            kept
        }
    }
}

/// Keeps the setups that exceed their machine's limit, in the order in which
/// they came.
pub fn select_long_setups(parts: Vec<PartData>, settings: &Settings) -> (r: Vec<PartData>)
    requires
        forall|i: int| 0 <= i < parts@.len() ==> (#[trigger] parts@[i]).wf(),
    ensures
        r@ == long_setups(parts@, *settings),
{
    let ghost all = parts@;
    let mut kept: Vec<PartData> = Vec::new();
    for part in it: parts
        invariant
            it.seq() == all,
            forall|i: int| 0 <= i < all.len() ==> (#[trigger] all[i]).wf(),
            kept@ == long_setups(all.subrange(0, it.index() as int), *settings),
    {
        let ghost done = all.subrange(0, it.index() as int);
        assert(all.subrange(0, it.index() + 1).drop_last() =~= done);
        assert(all[it.index() as int] == part);
        let evaluation = part.evaluate(settings);
        if evaluation.included {
            kept.push(part);
        }
    }
    assert(all.subrange(0, all.len() as int) =~= all);
    kept
}

/// The setups of one machine in a report.
pub struct MachineGroup {
    pub machine: String,
    /// Positions of the machine's setups in the report, in ascending order.
    pub parts: Vec<usize>,
}

/// The machines of `parts`, each once, in the order of their first setup.
pub open spec fn machines_in_order(parts: Seq<PartData>) -> Seq<Seq<char>>
    decreases parts.len(),
{
    if parts.len() == 0 {
        Seq::empty()
    } else {
        let seen = machines_in_order(parts.drop_last());
        if seen.contains(parts.last().machine@) {
            seen
        } else {
            seen.push(parts.last().machine@)
        }
    }
}

/// Positions of the setups of `machine` in `parts`, in ascending order.
pub open spec fn positions_of(parts: Seq<PartData>, machine: Seq<char>) -> Seq<usize>
    decreases parts.len(),
{
    if parts.len() == 0 {
        Seq::empty()
    } else {
        let earlier = positions_of(parts.drop_last(), machine);
        if parts.last().machine@ == machine {
            earlier.push((parts.len() - 1) as usize)
        } else {
            earlier
        }
    }
}

proof fn lemma_unseen_machine_has_no_positions(parts: Seq<PartData>, machine: Seq<char>)
    requires
        !machines_in_order(parts).contains(machine),
    ensures
        positions_of(parts, machine) == Seq::<usize>::empty(),
    decreases parts.len(),
{
    if parts.len() > 0 {
        let seen = machines_in_order(parts.drop_last());
        if seen.contains(machine) {
            let k = choose|k: int| 0 <= k < seen.len() && seen[k] == machine;
            if !seen.contains(parts.last().machine@) {
                assert(seen.push(parts.last().machine@)[k] == machine);
            }
        }
        if parts.last().machine@ == machine {
            if !seen.contains(machine) {
                assert(seen.push(machine)[seen.len() as int] == machine);
            }
        }
        lemma_unseen_machine_has_no_positions(parts.drop_last(), machine);
    }
}

/// Groups the setups of a report by machine: one group per machine, in the
/// order of each machine's first setup, with the positions of its setups.
pub fn group_by_machine(parts: &Vec<PartData>) -> (r: Vec<MachineGroup>)
    ensures
        r@.len() == machines_in_order(parts@).len(),
        forall|g: int|
            0 <= g < r@.len() ==> {
                &&& (#[trigger] r@[g]).machine@ == machines_in_order(parts@)[g]
                &&& r@[g].parts@ == positions_of(parts@, r@[g].machine@)
            },
{
    let ghost all = parts@;
    let mut groups: Vec<MachineGroup> = Vec::new();
    let mut i: usize = 0;
    while i < parts.len()
        invariant
            all == parts@,
            0 <= i <= all.len(),
            groups@.len() == machines_in_order(all.subrange(0, i as int)).len(),
            forall|g: int|
                0 <= g < groups@.len() ==> {
                    &&& (#[trigger] groups@[g]).machine@ == machines_in_order(
                        all.subrange(0, i as int),
                    )[g]
                    &&& groups@[g].parts@ == positions_of(
                        all.subrange(0, i as int),
                        groups@[g].machine@,
                    )
                },
            forall|g1: int, g2: int|
                0 <= g1 < g2 < groups@.len() ==> (#[trigger] groups@[g1]).machine@
                    != (#[trigger] groups@[g2]).machine@,
        decreases all.len() - i,
    {
        let ghost done = all.subrange(0, i as int);
        let ghost next = all.subrange(0, i + 1);
        assert(next.drop_last() =~= done);
        let ghost seen = machines_in_order(done);
        let machine = &parts[i].machine;
        assert(next.last() == all[i as int]);
        assert forall|m: Seq<char>|
            #[trigger] positions_of(next, m) == (if machine@ == m {
                positions_of(done, m).push(i)
            } else {
                positions_of(done, m)
            }) by {}
        let mut j: usize = 0;
        while j < groups.len()
            invariant
                0 <= j <= groups@.len(),
                groups@.len() == seen.len(),
                forall|g: int| 0 <= g < groups@.len() ==> (#[trigger] groups@[g]).machine@ == seen[g],
                forall|g: int| 0 <= g < j ==> (#[trigger] groups@[g]).machine@ != machine@,
                machine@ == all[i as int].machine@,
            ensures
                j <= groups@.len(),
                j < groups@.len() ==> groups@[j as int].machine@ == machine@,
                forall|g: int| 0 <= g < j ==> (#[trigger] groups@[g]).machine@ != machine@,
            decreases groups@.len() - j,
        {
            if groups[j].machine == *machine {
                break;
            }
            j = j + 1;
        }
        if j < groups.len() {
            assert(seen[j as int] == machine@);
            assert(seen.contains(machine@));
            let ghost before = groups@;
            groups[j].parts.push(i);
            assert forall|g: int| 0 <= g < groups@.len() && g != j implies groups@[g] == before[g] by {}
        } else {
            assert(!seen.contains(machine@)) by {
                if seen.contains(machine@) {
                    let k = choose|k: int| 0 <= k < seen.len() && seen[k] == machine@;
                    assert(groups@[k].machine@ == machine@);
                }
            }
            proof {
                lemma_unseen_machine_has_no_positions(done, machine@);
            }
            let mut positions: Vec<usize> = Vec::new();
            positions.push(i);
            groups.push(MachineGroup { machine: machine.clone(), parts: positions });
        }
        i = i + 1;
    }
    assert(all.subrange(0, all.len() as int) =~= all);
    groups
}

/// The send time and delay that `settings` ask for, before their ranges are
/// checked.
pub open spec fn target_of(settings: Settings) -> Result<ScheduleTarget, ScheduleError> {
    match parse_time_spec(vstd::utf8::encode_utf8(settings.report.send_time@)) {
        Err(e) => Err(e),
        Ok((hour, minute)) => if settings.general.send_delay < 0 {
            Err(ScheduleError::NegativeDelay)
        } else {
            Ok(ScheduleTarget { hour, minute, post_delay: settings.general.send_delay as u32 })
        },
    }
}

/// Reads the send time and the delay after it from `settings`.
pub fn schedule_target(settings: &Settings) -> (r: Result<ScheduleTarget, ScheduleError>)
    ensures
        r == target_of(*settings),
{
    let (hour, minute) = match parse_time(settings.report.send_time.as_str()) {
        Ok(t) => t,
        Err(e) => return Err(e),
    };
    if settings.general.send_delay < 0 {
        return Err(ScheduleError::NegativeDelay);
    }
    Ok(ScheduleTarget { hour, minute, post_delay: settings.general.send_delay as u32 })
}

/// Seconds from the clock reading `now` until the next report that
/// `settings` ask for, given the zone's offsets at today's and tomorrow's
/// send time, or why there is none.
pub open spec fn delay_at(
    settings: Settings,
    now: ClockReading,
    today_offset: Option<i32>,
    tomorrow_offset: Option<i32>,
) -> Result<u64, ScheduleError> {
    match target_of(settings) {
        Err(e) => Err(e),
        Ok(t) => match t.range_error() {
            Some(e) => Err(e),
            None => Ok(zoned_wait(now, t, today_offset, tomorrow_offset) as u64),
        },
    }
}

/// Seconds to sleep from the clock reading `now` until the next report is
/// due, given the zone's offsets at today's and tomorrow's send time.
pub fn calc_delay_at(
    settings: &Settings,
    now: ClockReading,
    today_offset: Option<i32>,
    tomorrow_offset: Option<i32>,
) -> (r: Result<u64, ScheduleError>)
    requires
        now.wf(),
        today_offset matches Some(o) ==> -86400 < o < 86400,
        tomorrow_offset matches Some(o) ==> -86400 < o < 86400,
    ensures
        r == delay_at(*settings, now, today_offset, tomorrow_offset),
{
    let target = match schedule_target(settings) {
        Ok(t) => t,
        Err(e) => return Err(e),
    };
    seconds_until_next_run_zoned(now, &target, today_offset, tomorrow_offset)
}

/// Seconds to sleep from the present moment until the next report is due,
/// by the local clock and time zone: the wait that `zoned_wait` gives for
/// some valid reading of the clock and of the zone's offsets, and so at least
/// the configured delay.
pub fn calc_delay(settings: &Settings) -> (r: Result<u64, ScheduleError>)
    ensures
        match target_of(*settings) {
            Err(e) => r == Err::<u64, ScheduleError>(e),
            Ok(t) => match t.range_error() {
                Some(e) => r == Err::<u64, ScheduleError>(e),
                None => {
                    &&& r matches Ok(v) && t.post_delay <= v
                    &&& exists|now: ClockReading, a: Option<i32>, b: Option<i32>|
                        now.wf() && (a matches Some(o) ==> -86400 < o < 86400) && (b matches Some(
                            o,
                        ) ==> -86400 < o < 86400) && r == Ok::<u64, ScheduleError>(
                            #[trigger] zoned_wait(now, t, a, b) as u64,
                        )
                },
            },
        },
{
    let target = match schedule_target(settings) {
        Ok(t) => t,
        Err(e) => return Err(e),
    };
    if target.hour >= 24 {
        return Err(ScheduleError::HourOutOfRange);
    }
    if target.minute >= 60 {
        return Err(ScheduleError::MinuteOutOfRange);
    }
    let now = local_now();
    let second = target.hour * 3600 + target.minute * 60;
    let today_offset = local_offset_at(Timestamp { day: now.local.day, second });
    let tomorrow_offset = local_offset_at(Timestamp { day: now.local.day + 1, second });
    seconds_until_next_run_zoned(now, &target, today_offset, tomorrow_offset)
}

} // verus!
