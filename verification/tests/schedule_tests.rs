use scdedit::schedule::{
    parse_date, parse_duration, parse_time, Date, ScdDuration, ScheduleError, ScheduleLine,
    SchedulingMode, Time, Timestamp,
};

fn ts(year: u16, month: u8, day: u8, hour: u8, minute: u8) -> Timestamp {
    Timestamp { date: Date { year, month, day }, time: Time { hour, minute } }
}

#[test]
fn test_parse_date() {
    assert_eq!(
        parse_date(&"20000101".to_string()),
        Ok(Date { year: 2000, month: 1, day: 1 })
    );
}

#[test]
fn test_parse_bad_date() {
    assert_eq!(
        parse_date(&"20000000".to_string()),
        Err(ScheduleError::InvalidDate("Expected YYYYMMDD, got 20000000".to_string()))
    )
}

#[test]
fn test_parse_time() {
    assert_eq!(parse_time(&"00:00".to_string()), Ok(Time { hour: 0, minute: 0 }));
    assert_eq!(
        parse_time(&"24:00".to_string()),
        Err(ScheduleError::InvalidTime("Expected HH:MM, got 24:00".to_string()))
    );
}

#[test]
fn test_parse_duration() {
    assert_eq!(parse_duration(&"120".to_string()), Ok(120));
    assert_eq!(
        parse_duration(&"one hundred".to_string()),
        Err(ScheduleError::InvalidDuration(
            "Expected minutes > 0, got one hundred".to_string()
        ))
    );
}

#[test]
fn scheduling_mode_formatting() {
    assert_eq!(SchedulingMode::Common.to_string(), "common".to_string());
    assert_eq!(SchedulingMode::Discretionary.to_string(), "discretionary".to_string());
    assert_eq!(SchedulingMode::Special.to_string(), "special".to_string());
}

#[test]
fn schedule_line_from_str() {
    let mut line = ScheduleLine::new(
        ts(2000, 1, 1, 0, 0),
        ScdDuration::Finite(1),
        0,
        &"normalscan".to_string(),
        &SchedulingMode::Common,
        vec![],
    )
    .unwrap();
    assert_eq!(
        line,
        ScheduleLine::decode(&"20000101 00:00 1 0 normalscan common".to_string()).unwrap()
    );
    line.priority = 20;
    assert_eq!(
        line,
        ScheduleLine::decode(&"20000101 00:00 1 20 normalscan common".to_string()).unwrap()
    );
    line.priority = 0;
    line.duration = ScdDuration::Infinite;
    assert_eq!(
        line,
        ScheduleLine::decode(&"20000101 00:00 - 0 normalscan common".to_string()).unwrap()
    );
    line.experiment = "test".to_string();
    assert_eq!(
        line,
        ScheduleLine::decode(&"20000101 00:00 - 0 test common".to_string()).unwrap()
    );
    line.scheduling_mode = SchedulingMode::Discretionary;
    assert_eq!(
        line,
        ScheduleLine::decode(&"20000101 00:00 - 0 test discretionary".to_string()).unwrap()
    );
    line.kwargs.push("--embargo".to_string());
    assert_eq!(
        line,
        ScheduleLine::decode(&"20000101 00:00 - 0 test discretionary --embargo".to_string())
            .unwrap()
    );
}

#[test]
fn schedule_line_formatting() {
    let mut line = ScheduleLine::new(
        ts(2000, 1, 1, 0, 0),
        ScdDuration::Infinite,
        0,
        &"normalscan".to_string(),
        &SchedulingMode::Common,
        vec![],
    )
    .unwrap();
    assert_eq!(line.format(), "20000101 00:00 - 0 normalscan common");
    line.duration = ScdDuration::Finite(1);
    assert_eq!(line.format(), "20000101 00:00 1 0 normalscan common");
    line.kwargs.push("--embargo".to_string());
    assert_eq!(line.format(), "20000101 00:00 1 0 normalscan common --embargo");
    line.experiment = "full_fov".to_string();
    assert_eq!(line.format(), "20000101 00:00 1 0 full_fov common --embargo");
    line.scheduling_mode = SchedulingMode::Special;
    assert_eq!(line.format(), "20000101 00:00 1 0 full_fov special --embargo");
    line.timestamp = ts(2024, 12, 31, 23, 59);
    assert_eq!(line.format(), "20241231 23:59 1 0 full_fov special --embargo");
    line.duration = ScdDuration::Finite(1440);
    assert_eq!(line.format(), "20241231 23:59 1440 0 full_fov special --embargo");
    line.priority = 20;
    assert_eq!(line.format(), "20241231 23:59 1440 20 full_fov special --embargo");
}

#[test]
fn make_schedule_line() {
    assert_eq!(
        ScheduleLine::decode(&"20000101 00:00 120 25 normalscan common".to_string()),
        Err(ScheduleError::InvalidPriority("25 > 20".to_string()))
    );
    assert_eq!(
        ScheduleLine::decode(&"20000101 00:00 120 -1 normalscan common".to_string()),
        Err(ScheduleError::InvalidPriority("-1".to_string()))
    );
    assert_eq!(
        ScheduleLine::decode(&"20000101 00:00 -10 20 normalscan common".to_string()),
        Err(ScheduleError::InvalidDuration("Expected minutes > 0, got -10".to_string()))
    );
    assert_eq!(
        ScheduleLine::decode(&"20000101 24:00 120 20 normalscan common".to_string()),
        Err(ScheduleError::InvalidTime("Expected HH:MM, got 24:00".to_string()))
    );
    assert_eq!(
        ScheduleLine::decode(&"20000101 0000 120 20 normalscan common".to_string()),
        Err(ScheduleError::InvalidTime("Expected HH:MM, got 0000".to_string()))
    );
}

#[test]
fn year_window_boundaries() {
    assert!(ScheduleLine::decode(&"20000101 00:00 1 0 normalscan common".to_string()).is_ok());
    assert!(ScheduleLine::decode(&"20501231 23:59 1 0 normalscan common".to_string()).is_ok());
    assert_eq!(
        ScheduleLine::decode(&"19991231 23:59 1 0 normalscan common".to_string()),
        Err(ScheduleError::InvalidDate(
            "Bad year: 1999 not in range [2000, 2050]".to_string()
        ))
    );
    assert_eq!(
        ScheduleLine::decode(&"20510101 00:00 1 0 normalscan common".to_string()),
        Err(ScheduleError::InvalidDate(
            "Bad year: 2051 not in range [2000, 2050]".to_string()
        ))
    );
}

#[test]
fn priority_and_duration_boundaries() {
    assert!(ScheduleLine::decode(&"20000101 00:00 1 20 normalscan common".to_string()).is_ok());
    assert_eq!(
        ScheduleLine::decode(&"20000101 00:00 1 21 normalscan common".to_string()),
        Err(ScheduleError::InvalidPriority("21 > 20".to_string()))
    );
    assert!(ScheduleLine::decode(&"20000101 00:00 1 0 normalscan common".to_string()).is_ok());
    assert_eq!(
        ScheduleLine::decode(&"20000101 00:00 0 0 normalscan common".to_string()),
        Err(ScheduleError::InvalidDuration("Expected minutes > 0, got 0".to_string()))
    );
    assert!(ScheduleLine::decode(&"20000101 23:59 1 0 normalscan common".to_string()).is_ok());
}

#[test]
fn infinite_duration_needs_priority_zero() {
    let ok = ScheduleLine::new(
        ts(2020, 6, 15, 12, 30),
        ScdDuration::Infinite,
        0,
        &"normalscan".to_string(),
        &SchedulingMode::Common,
        vec![],
    );
    assert!(ok.is_ok());
    let bad = ScheduleLine::new(
        ts(2020, 6, 15, 12, 30),
        ScdDuration::Infinite,
        1,
        &"normalscan".to_string(),
        &SchedulingMode::Common,
        vec![],
    );
    assert_eq!(
        bad,
        Err(ScheduleError::InvalidPriority(
            "Cannot have priority > 0 for infinite schedule line".to_string()
        ))
    );
}

#[test]
fn example_line_round_trip() {
    let text = "20000101 00:00 1 0 normalscan common".to_string();
    let line = ScheduleLine::decode(&text).unwrap();
    assert_eq!(line.timestamp, ts(2000, 1, 1, 0, 0));
    assert_eq!(line.duration, ScdDuration::Finite(1));
    assert_eq!(line.priority, 0);
    assert_eq!(line.experiment, "normalscan".to_string());
    assert_eq!(line.scheduling_mode, SchedulingMode::Common);
    assert!(line.kwargs.is_empty());
    assert_eq!(line.format(), text);
}

#[test]
fn kwargs_round_trip() {
    let text = "20241105 06:45 90 3 twofsound special --embargo --scan-id 7".to_string();
    let line = ScheduleLine::decode(&text).unwrap();
    assert_eq!(
        line.kwargs,
        vec!["--embargo".to_string(), "--scan-id".to_string(), "7".to_string()]
    );
    assert_eq!(line.format(), text);
}

#[test]
fn calendar_combination_is_checked() {
    assert_eq!(
        ScheduleLine::decode(&"20000230 00:00 1 0 normalscan common".to_string()),
        Err(ScheduleError::InvalidDate("Expected YYYYMMDD, got 20000230".to_string()))
    );
    // 2000 is a leap year, 2001 is not
    assert!(ScheduleLine::decode(&"20000229 00:00 1 0 normalscan common".to_string()).is_ok());
    assert_eq!(
        ScheduleLine::decode(&"20010229 00:00 1 0 normalscan common".to_string()),
        Err(ScheduleError::InvalidDate("Expected YYYYMMDD, got 20010229".to_string()))
    );
    assert!(ScheduleLine::decode(&"20000131 00:00 1 0 normalscan common".to_string()).is_ok());
    assert_eq!(
        ScheduleLine::decode(&"20000431 00:00 1 0 normalscan common".to_string()),
        Err(ScheduleError::InvalidDate("Expected YYYYMMDD, got 20000431".to_string()))
    );
}

#[test]
fn remaining_error_kinds() {
    assert_eq!(
        ScheduleLine::decode(&"20000101 00:00".to_string()),
        Err(ScheduleError::MissingFields)
    );
    assert_eq!(
        ScheduleLine::decode(&"20000101 00:00 1 0 normalscan weird".to_string()),
        Err(ScheduleError::InvalidMode("weird".to_string()))
    );
    // a doubled space makes the task token empty
    assert_eq!(
        ScheduleLine::decode(&"20000101 00:00 1 0  common".to_string()),
        Err(ScheduleError::InvalidTask("Bad task: ".to_string()))
    );
    // a doubled space makes a kwarg token empty
    assert_eq!(
        ScheduleLine::decode(&"20000101 00:00 1 0 normalscan common  x".to_string()),
        Err(ScheduleError::InvalidKwargs("Bad kwarg: ".to_string()))
    );
    assert_eq!(
        ScheduleError::MissingFields.to_string(),
        "Missing fields".to_string()
    );
}

#[test]
fn duration_text() {
    assert_eq!(ScdDuration::Infinite.to_string(), "-".to_string());
    assert_eq!(ScdDuration::Finite(120).to_string(), "120".to_string());
    assert_eq!(ScdDuration::parse(&"-".to_string()), Ok(ScdDuration::Infinite));
    assert_eq!(ScdDuration::parse(&"90".to_string()), Ok(ScdDuration::Finite(90)));
    assert_eq!(
        ScdDuration::parse(&"0".to_string()),
        Err(ScheduleError::InvalidDuration("Expected minutes > 0, got 0".to_string()))
    );
}
