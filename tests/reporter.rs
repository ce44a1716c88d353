use long_setups_reporter::breaks::{compute_break_minutes, BreakMode, ShiftBreak, ShiftBreakWindow};
use long_setups_reporter::config::{
    DatabaseSettings, GeneralSettings, ReportSettings, Settings, SmtpSettings,
};
use long_setups_reporter::models::PartData;
use long_setups_reporter::pipeline::{cycle_step, CycleEvent, CycleStep};
use long_setups_reporter::reports::{
    calc_delay, calc_delay_at, group_by_machine, schedule_target, select_long_setups,
};
use long_setups_reporter::retry::{retry_step, RetryEvent, RetryPolicy, RetryState};
use long_setups_reporter::schedule::{
    next_send_time, parse_time, seconds_until_next_run, seconds_until_next_run_zoned, ScheduleError,
    ScheduleTarget,
};
use long_setups_reporter::timestamp::{minutes_between, ClockReading, Timestamp};

const DAY: i32 = 738_886; // 2024-01-01

fn hms(h: u32, m: u32, s: u32) -> u32 {
    h * 3600 + m * 60 + s
}

fn at(day: i32, h: u32, m: u32, s: u32) -> Timestamp {
    Timestamp { day, second: hms(h, m, s) }
}

fn reading(local: Timestamp, offset: i32, nanos: u32) -> ClockReading {
    ClockReading { local, offset, nanos }
}

fn settings(send_time: &str, send_delay: i32, limits: &[(&str, i32)], default_limit: i32) -> Settings {
    Settings {
        database: DatabaseSettings {
            host: "db".to_string(),
            username: "user".to_string(),
            password: "SECRET-REDACTED".to_string(),
            database: "parts".to_string(),
        },
        smtp: SmtpSettings {
            server: "mail".to_string(),
            port: 25,
            username: "user".to_string(),
            password: "SECRET-REDACTED".to_string(),
            from: "from@example.com".to_string(),
            to: vec!["to@example.com".to_string()],
        },
        report: ReportSettings { send_time: send_time.to_string(), default_setup_limit: default_limit },
        general: GeneralSettings { log_level: "info".to_string(), send_delay },
        limits: limits.iter().map(|(k, v)| (k.to_string(), *v)).collect(),
    }
}

fn part(machine: &str, start: Timestamp, end: Timestamp) -> PartData {
    PartData {
        part_name: "Flange".to_string(),
        setup: 1,
        order: "ML-1".to_string(),
        machine: machine.to_string(),
        operator: "Ivanov".to_string(),
        start_setup_time: start,
        end_setup_time: end,
        operators_comment: String::new(),
        downtimes: "0".to_string(),
    }
}

fn run_retry(policy: RetryPolicy, outcomes: &[bool]) -> (RetryState, usize, usize, u64) {
    let mut state = RetryState::start();
    let mut invocations = 0;
    let mut delays = 0;
    let mut slept = 0;
    while !state.is_finished() {
        let event = match state {
            RetryState::Attempting { .. } => {
                let ok = outcomes[invocations];
                invocations += 1;
                if ok { RetryEvent::AttemptSucceeded } else { RetryEvent::AttemptFailed }
            }
            RetryState::Waiting { .. } => {
                delays += 1;
                slept += policy.delay_secs;
                RetryEvent::DelayElapsed
            }
            _ => unreachable!(),
        };
        state = retry_step(&policy, state, event);
    }
    (state, invocations, delays, slept)
}

#[test]
fn empty_interval_has_no_breaks() {
    for t in [0, hms(9, 0, 0), hms(8, 46, 0), hms(23, 59, 59)] {
        assert_eq!(compute_break_minutes(t, t, BreakMode::AttributeAtStart), 0);
        assert_eq!(compute_break_minutes(t, t, BreakMode::AttributeAtEnd), 0);
    }
}

#[test]
fn counted_break_extends_end_at_start() {
    let start = hms(8, 40, 0);
    let end = hms(11, 50, 0);
    // 09:00 counts (15 min) and pushes the end to 12:05, which reaches the
    // 12:30 break moved to 12:01.
    assert_eq!(compute_break_minutes(start, end, BreakMode::AttributeAtStart), 45);
    assert_eq!(compute_break_minutes(start, end, BreakMode::AttributeAtEnd), 15);
}

#[test]
fn break_counted_once_when_setup_spans_nine() {
    assert_eq!(compute_break_minutes(hms(8, 50, 0), hms(9, 5, 0), BreakMode::AttributeAtEnd), 15);
    assert_eq!(compute_break_minutes(hms(8, 45, 0), hms(8, 50, 0), BreakMode::AttributeAtStart), 15);
}

#[test]
fn wrapped_setup_from_nine_fifty_five() {
    let start = hms(9, 55, 0);
    let end = hms(9, 5, 0);
    // Every break is counted once, the 09:00 one on the following day.
    assert_eq!(compute_break_minutes(start, end, BreakMode::AttributeAtStart), 150);
    assert_eq!(compute_break_minutes(start, end, BreakMode::AttributeAtEnd), 150);
    // Without the 09:00 break the setup would have to end before 08:46.
    assert_eq!(compute_break_minutes(start, hms(8, 45, 0), BreakMode::AttributeAtStart), 135);
}

#[test]
fn night_breaks_after_start_stay_on_the_same_day() {
    let start = hms(0, 30, 0);
    let end = hms(0, 10, 0);
    assert_eq!(compute_break_minutes(start, end, BreakMode::AttributeAtEnd), 150);
    assert_eq!(compute_break_minutes(start, end, BreakMode::AttributeAtStart), 150);
}

#[test]
fn wrapped_end_equals_next_day_end() {
    for (start, end) in [(hms(9, 55, 0), hms(9, 5, 0)), (hms(22, 0, 0), hms(2, 0, 0)), (hms(23, 0, 0), hms(0, 30, 0))] {
        for mode in [BreakMode::AttributeAtStart, BreakMode::AttributeAtEnd] {
            assert_eq!(
                compute_break_minutes(start, end, mode),
                compute_break_minutes(start, end + 86400, mode)
            );
        }
    }
}

#[test]
fn night_setup_across_midnight() {
    let start = hms(22, 0, 0);
    let end = hms(2, 0, 0);
    assert_eq!(compute_break_minutes(start, end, BreakMode::AttributeAtEnd), 60);
    assert_eq!(compute_break_minutes(start, end, BreakMode::AttributeAtStart), 60);
}

#[test]
fn interval_without_breaks() {
    assert_eq!(compute_break_minutes(hms(10, 0, 0), hms(11, 0, 0), BreakMode::AttributeAtStart), 0);
    assert_eq!(compute_break_minutes(hms(10, 0, 0), hms(11, 0, 0), BreakMode::AttributeAtEnd), 0);
}

#[test]
fn custom_break_window() {
    let window = ShiftBreakWindow {
        breaks: vec![ShiftBreak { boundary: hms(10, 0, 0), lead: 600, minutes: 20 }],
    };
    assert_eq!(window.break_minutes(hms(9, 55, 0), hms(10, 0, 0), BreakMode::AttributeAtEnd), 20);
    assert_eq!(window.break_minutes(hms(9, 55, 0), hms(10, 0, 0), BreakMode::AttributeAtStart), 0);
    assert_eq!(window.break_minutes(hms(9, 45, 0), hms(9, 52, 0), BreakMode::AttributeAtStart), 20);
}

#[test]
fn minutes_between_truncates_toward_zero() {
    assert_eq!(minutes_between(at(DAY, 10, 0, 30), at(DAY, 10, 1, 29)), 0);
    assert_eq!(minutes_between(at(DAY, 10, 1, 29), at(DAY, 10, 0, 30)), 0);
    assert_eq!(minutes_between(at(DAY, 10, 0, 0), at(DAY, 10, 2, 1)), 2);
    assert_eq!(minutes_between(at(DAY, 10, 2, 1), at(DAY, 10, 0, 0)), -2);
    assert_eq!(minutes_between(at(DAY, 23, 0, 0), at(DAY + 1, 1, 0, 0)), 120);
}

#[test]
fn part_minutes_and_breaks() {
    let p = part("CNC1", at(DAY, 8, 0, 0), at(DAY, 12, 0, 0));
    assert_eq!(p.breaks_between(false), 45);
    assert_eq!(p.breaks_between(true), 15);
    assert_eq!(p.setup_minutes(), 225);
}

#[test]
fn evaluate_against_machine_limit() {
    let s = settings("08:00", 0, &[("cnc1", 180)], 240);
    let e = part("CNC1", at(DAY, 8, 0, 0), at(DAY, 12, 0, 0)).evaluate(&s);
    assert_eq!(e.productive_minutes, 195);
    assert_eq!(e.limit, 180);
    assert!(e.included);
    let e = part("Lathe", at(DAY, 8, 0, 0), at(DAY, 12, 0, 0)).evaluate(&s);
    assert_eq!(e.limit, 240);
    assert!(!e.included);
}

#[test]
fn evaluate_against_is_strict() {
    let p = part("CNC1", at(DAY, 8, 0, 0), at(DAY, 12, 0, 0));
    assert!(!p.evaluate_against(195).included);
    assert!(p.evaluate_against(194).included);
}

#[test]
fn longer_setup_stays_included() {
    let s = settings("08:00", 0, &[("cnc1", 60)], 240);
    let mut was_included = false;
    // 13:00 to 15:00 holds no break boundary, so only the elapsed time grows.
    for minutes in 0..=120u32 {
        let end = at(DAY, 13, 0, 0).second + minutes * 60;
        let e = part("cnc1", at(DAY, 13, 0, 0), Timestamp { day: DAY, second: end }).evaluate(&s);
        assert_eq!(e.productive_minutes, minutes as i64);
        assert!(!was_included || e.included);
        was_included = e.included;
    }
    assert!(was_included);
}

#[test]
fn limit_lookup_ignores_case() {
    let s = settings("08:00", 0, &[("cnc1", 180), ("lathe-2", 90)], 240);
    assert_eq!(s.get_setup_limit("CNC1"), 180);
    assert_eq!(s.get_setup_limit("cnc1"), 180);
    assert_eq!(s.get_setup_limit("Lathe-2"), 90);
    assert_eq!(s.get_setup_limit("mill"), 240);
    assert_eq!(s.get_setup_limit("MILL"), 240);
}

#[test]
fn limit_for_key_is_exact() {
    let s = settings("08:00", 0, &[("cnc1", 180)], 240);
    assert_eq!(s.limit_for_key("cnc1"), 180);
    assert_eq!(s.limit_for_key("CNC1"), 240);
    assert_eq!(s.limit_for_key(""), 240);
}

#[test]
fn update_replaces_or_keeps() {
    let mut s = settings("08:00", 0, &[], 240);
    let r: Result<(), &str> = s.update(Ok(settings("09:30", 10, &[], 120)));
    assert!(r.is_ok());
    assert_eq!(s.report.send_time, "09:30");
    assert_eq!(s.report.default_setup_limit, 120);
    let r = s.update(Err("unreadable"));
    assert_eq!(r, Err("unreadable"));
    assert_eq!(s.report.send_time, "09:30");
    assert_eq!(s.general.send_delay, 10);
}

#[test]
fn next_run_from_ten_to_eight_next_day() {
    let target = ScheduleTarget { hour: 8, minute: 0, post_delay: 0 };
    assert_eq!(seconds_until_next_run(at(DAY, 10, 0, 0), &target), Ok(79200));
}

#[test]
fn next_run_from_seven_with_delay() {
    let target = ScheduleTarget { hour: 8, minute: 0, post_delay: 30 };
    assert_eq!(seconds_until_next_run(at(DAY, 7, 0, 0), &target), Ok(3630));
}

#[test]
fn next_run_within_a_day() {
    let target = ScheduleTarget { hour: 8, minute: 0, post_delay: 45 };
    for second in (0..86400).step_by(599) {
        let wait = seconds_until_next_run(Timestamp { day: DAY, second }, &target).unwrap();
        assert!(wait > 45 && wait < 86400 + 45);
    }
    assert_eq!(seconds_until_next_run(at(DAY, 8, 0, 0), &target), Ok(86400 + 45));
}

#[test]
fn next_run_rejects_bad_target() {
    let now = at(DAY, 7, 0, 0);
    let hour = ScheduleTarget { hour: 24, minute: 0, post_delay: 0 };
    let minute = ScheduleTarget { hour: 8, minute: 60, post_delay: 0 };
    assert_eq!(seconds_until_next_run(now, &hour), Err(ScheduleError::HourOutOfRange));
    assert_eq!(seconds_until_next_run(now, &minute), Err(ScheduleError::MinuteOutOfRange));
}

#[test]
fn next_send_time_today_or_tomorrow() {
    assert_eq!(next_send_time(at(DAY, 7, 0, 0), (8, 0)), at(DAY, 8, 0, 0));
    assert_eq!(next_send_time(at(DAY, 10, 0, 0), (8, 0)), at(DAY + 1, 8, 0, 0));
    assert_eq!(next_send_time(at(DAY, 8, 0, 0), (8, 0)), at(DAY + 1, 8, 0, 0));
}

#[test]
fn parse_time_accepts_hour_and_minute() {
    assert_eq!(parse_time("08:30"), Ok((8, 30)));
    assert_eq!(parse_time("+8:05"), Ok((8, 5)));
    assert_eq!(parse_time("4294967295:0"), Ok((4294967295, 0)));
    assert_eq!(parse_time("25:99"), Ok((25, 99)));
}

#[test]
fn parse_time_rejects_malformed() {
    assert_eq!(parse_time("8"), Err(ScheduleError::InvalidFormat));
    assert_eq!(parse_time(""), Err(ScheduleError::InvalidFormat));
    assert_eq!(parse_time("08:00:00"), Err(ScheduleError::InvalidFormat));
    assert_eq!(parse_time("a:00"), Err(ScheduleError::InvalidNumber));
    assert_eq!(parse_time(":30"), Err(ScheduleError::InvalidNumber));
    assert_eq!(parse_time("08:"), Err(ScheduleError::InvalidNumber));
    assert_eq!(parse_time("+:30"), Err(ScheduleError::InvalidNumber));
    assert_eq!(parse_time("-1:00"), Err(ScheduleError::InvalidNumber));
    assert_eq!(parse_time(" 8:00"), Err(ScheduleError::InvalidNumber));
    assert_eq!(parse_time("4294967296:00"), Err(ScheduleError::InvalidNumber));
    assert_eq!(parse_time("08:3ä"), Err(ScheduleError::InvalidNumber));
}

#[test]
fn delay_from_settings() {
    let now = reading(at(DAY, 7, 0, 0), 3600, 0);
    let delay = |send_time: &str, send_delay: i32| {
        calc_delay_at(&settings(send_time, send_delay, &[], 240), now, None, None)
    };
    assert_eq!(delay("08:00", 30), Ok(3630));
    assert_eq!(delay("25:00", 0), Err(ScheduleError::HourOutOfRange));
    assert_eq!(delay("08:75", 0), Err(ScheduleError::MinuteOutOfRange));
    assert_eq!(delay("08:00", -1), Err(ScheduleError::NegativeDelay));
    assert_eq!(delay("8-00", 0), Err(ScheduleError::InvalidFormat));
    assert_eq!(delay("8:x", 0), Err(ScheduleError::InvalidNumber));
    assert_eq!(
        schedule_target(&settings("07:15", 5, &[], 240)),
        Ok(ScheduleTarget { hour: 7, minute: 15, post_delay: 5 })
    );
}

#[test]
fn zoned_wait_with_fixed_offset_is_wall_clock() {
    let target = ScheduleTarget { hour: 8, minute: 0, post_delay: 0 };
    let now = reading(at(DAY, 10, 0, 0), 10800, 0);
    assert_eq!(seconds_until_next_run_zoned(now, &target, Some(10800), Some(10800)), Ok(79200));
    assert_eq!(seconds_until_next_run_zoned(now, &target, None, None), Ok(79200));
}

#[test]
fn zoned_wait_across_spring_forward() {
    // 01:30 at +01:00; the clock jumps from 02:00 to 03:00, so 03:30 is at +02:00.
    let target = ScheduleTarget { hour: 3, minute: 30, post_delay: 0 };
    let now = reading(at(DAY, 1, 30, 0), 3600, 0);
    assert_eq!(seconds_until_next_run_zoned(now, &target, Some(7200), Some(7200)), Ok(3600));
    // Over a whole calendar day that loses an hour.
    let target = ScheduleTarget { hour: 8, minute: 0, post_delay: 10 };
    let now = reading(at(DAY, 10, 0, 0), 3600, 0);
    assert_eq!(seconds_until_next_run_zoned(now, &target, Some(3600), Some(7200)), Ok(75610));
}

#[test]
fn zoned_wait_across_fall_back() {
    // 01:30 at +01:00 after the clock went back from 02:00 to 01:00: 01:45
    // first came at +02:00, which is already past, so the next one is tomorrow.
    let target = ScheduleTarget { hour: 1, minute: 45, post_delay: 0 };
    let now = reading(at(DAY, 1, 30, 0), 3600, 0);
    assert_eq!(seconds_until_next_run_zoned(now, &target, Some(7200), Some(3600)), Ok(87300));
    // A calendar day that gains an hour.
    let target = ScheduleTarget { hour: 8, minute: 0, post_delay: 0 };
    let now = reading(at(DAY, 10, 0, 0), 7200, 0);
    assert_eq!(seconds_until_next_run_zoned(now, &target, Some(7200), Some(3600)), Ok(82800));
}

#[test]
fn zoned_wait_drops_the_fraction() {
    let target = ScheduleTarget { hour: 8, minute: 0, post_delay: 30 };
    let now = reading(at(DAY, 7, 0, 0), 0, 500_000_000);
    assert_eq!(seconds_until_next_run_zoned(now, &target, None, None), Ok(3629));
    // Half a second past the send time: the next one is tomorrow.
    let now = reading(at(DAY, 8, 0, 0), 0, 500_000_000);
    assert_eq!(seconds_until_next_run_zoned(now, &target, None, None), Ok(86399 + 30));
}

#[test]
fn zoned_wait_rejects_bad_target() {
    let now = reading(at(DAY, 7, 0, 0), 0, 0);
    let hour = ScheduleTarget { hour: 24, minute: 0, post_delay: 0 };
    let minute = ScheduleTarget { hour: 8, minute: 60, post_delay: 0 };
    assert_eq!(seconds_until_next_run_zoned(now, &hour, None, None), Err(ScheduleError::HourOutOfRange));
    assert_eq!(seconds_until_next_run_zoned(now, &minute, None, None), Err(ScheduleError::MinuteOutOfRange));
}

#[test]
fn canonical_limits() {
    assert!(settings("08:00", 0, &[("cnc1", 1), ("lathe-2", 2)], 240).has_canonical_limits());
    assert!(settings("08:00", 0, &[], 240).has_canonical_limits());
    assert!(!settings("08:00", 0, &[("cnc1", 1), ("CNC2", 2)], 240).has_canonical_limits());
    assert!(!settings("08:00", 0, &[("cnc1", 1), ("cnc1", 2)], 240).has_canonical_limits());
}

#[test]
fn delay_from_the_clock() {
    let wait = calc_delay(&settings("08:00", 30, &[], 240)).unwrap();
    assert!(wait > 30 && wait <= 86400 + 30);
    assert_eq!(calc_delay(&settings("x", 30, &[], 240)), Err(ScheduleError::InvalidFormat));
}

#[test]
fn retry_succeeds_on_third_attempt() {
    let policy = RetryPolicy { max_attempts: 3, delay_secs: 5 };
    let (state, invocations, delays, slept) = run_retry(policy, &[false, false, true]);
    assert_eq!(state, RetryState::Succeeded { attempts: 3 });
    assert_eq!(invocations, 3);
    assert_eq!(delays, 2);
    assert_eq!(slept, 10);
}

#[test]
fn retry_returns_second_failure() {
    let policy = RetryPolicy { max_attempts: 2, delay_secs: 1 };
    let (state, invocations, delays, slept) = run_retry(policy, &[false, false, false]);
    assert_eq!(state, RetryState::Exhausted { attempts: 2 });
    assert_eq!(invocations, 2);
    assert_eq!(delays, 1);
    assert_eq!(slept, 1);
}

#[test]
fn retry_single_attempt_never_waits() {
    let policy = RetryPolicy { max_attempts: 1, delay_secs: 5 };
    let (state, invocations, delays, _) = run_retry(policy, &[false]);
    assert_eq!(state, RetryState::Exhausted { attempts: 1 });
    assert_eq!((invocations, delays), (1, 0));
}

#[test]
fn retry_shutdown_during_wait_abandons() {
    let policy = RetryPolicy { max_attempts: 3, delay_secs: 5 };
    let s = retry_step(&policy, RetryState::start(), RetryEvent::AttemptFailed);
    assert_eq!(s, RetryState::Waiting { attempt: 1 });
    let s = retry_step(&policy, s, RetryEvent::Shutdown);
    assert_eq!(s, RetryState::Abandoned { attempts: 1 });
    assert!(s.is_finished());
    assert_eq!(retry_step(&policy, s, RetryEvent::DelayElapsed), s);
    let running = RetryState::Attempting { attempt: 2 };
    assert_eq!(retry_step(&policy, running, RetryEvent::Shutdown), running);
}

#[test]
fn select_keeps_long_setups_in_order() {
    let s = settings("08:00", 0, &[("cnc1", 30), ("cnc2", 1000)], 60);
    let parts = vec![
        part("CNC1", at(DAY, 10, 0, 0), at(DAY, 11, 0, 0)),
        part("cnc2", at(DAY, 8, 0, 0), at(DAY, 12, 0, 0)),
        part("Mill", at(DAY, 13, 0, 0), at(DAY, 13, 30, 0)),
        part("Mill", at(DAY, 13, 0, 0), at(DAY, 14, 30, 0)),
    ];
    let kept = select_long_setups(parts, &s);
    assert_eq!(kept.len(), 2);
    assert_eq!(kept[0].machine, "CNC1");
    assert_eq!(kept[1].machine, "Mill");
    assert_eq!(kept[1].end_setup_time, at(DAY, 14, 30, 0));
    assert!(select_long_setups(Vec::new(), &s).is_empty());
}

#[test]
fn groups_by_machine_in_first_seen_order() {
    let t = at(DAY, 10, 0, 0);
    let parts: Vec<PartData> = ["A", "B", "A", "C", "B"].iter().map(|m| part(m, t, t)).collect();
    let groups = group_by_machine(&parts);
    let seen: Vec<(String, Vec<usize>)> = groups.into_iter().map(|g| (g.machine, g.parts)).collect();
    assert_eq!(
        seen,
        vec![
            ("A".to_string(), vec![0, 2]),
            ("B".to_string(), vec![1, 4]),
            ("C".to_string(), vec![3]),
        ]
    );
    assert!(group_by_machine(&Vec::new()).is_empty());
}

fn run_cycle(events: &[CycleEvent]) -> Vec<CycleStep> {
    let mut step = CycleStep::start();
    let mut seen = vec![step];
    for event in events {
        step = cycle_step(step, *event);
        seen.push(step);
    }
    assert!(step.is_finished());
    seen
}

#[test]
fn cycle_runs_steps_in_order() {
    let seen = run_cycle(&[
        CycleEvent::StepSucceeded,
        CycleEvent::Fetched { reported: 2 },
        CycleEvent::StepSucceeded,
        CycleEvent::StepSucceeded,
    ]);
    assert_eq!(
        seen,
        vec![
            CycleStep::ReconnectDatabase,
            CycleStep::FetchEvents,
            CycleStep::ReconnectMailer { reported: 2 },
            CycleStep::SendReport { reported: 2 },
            CycleStep::Completed { sent: true },
        ]
    );
}

#[test]
fn cycle_survives_failed_reconnects() {
    let seen = run_cycle(&[
        CycleEvent::StepFailed,
        CycleEvent::Fetched { reported: 1 },
        CycleEvent::StepFailed,
        CycleEvent::StepSucceeded,
    ]);
    assert_eq!(seen.last(), Some(&CycleStep::Completed { sent: true }));
}

#[test]
fn cycle_fails_on_fetch_before_mail() {
    let seen = run_cycle(&[CycleEvent::StepSucceeded, CycleEvent::StepFailed]);
    assert_eq!(seen, vec![CycleStep::ReconnectDatabase, CycleStep::FetchEvents, CycleStep::Failed]);
}

#[test]
fn cycle_fails_on_send() {
    let seen = run_cycle(&[
        CycleEvent::StepSucceeded,
        CycleEvent::Fetched { reported: 3 },
        CycleEvent::StepSucceeded,
        CycleEvent::StepFailed,
    ]);
    assert_eq!(seen.last(), Some(&CycleStep::Failed));
}

#[test]
fn cycle_skips_sending_empty_report() {
    let seen = run_cycle(&[CycleEvent::StepSucceeded, CycleEvent::Fetched { reported: 0 }, CycleEvent::StepSucceeded]);
    assert_eq!(seen.last(), Some(&CycleStep::Completed { sent: false }));
    let seen = run_cycle(&[CycleEvent::StepSucceeded, CycleEvent::Fetched { reported: 0 }, CycleEvent::StepFailed]);
    assert_eq!(seen.last(), Some(&CycleStep::Completed { sent: false }));
}
