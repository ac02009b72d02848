use idmnoads::aria2::{Call, Download};
use idmnoads::schedule::{
    clock_minutes, in_window_at, parse_u32, scheduler_step, scheduler_window, time_in_window,
    window_contains, SchedulerState,
};
use idmnoads::settings::Settings;

#[test]
fn clock_minutes_values() {
    assert_eq!(clock_minutes("01:00"), Some(60));
    assert_eq!(clock_minutes("22:30"), Some(1350));
    assert_eq!(clock_minutes("7"), Some(420));
    assert_eq!(clock_minutes(":15"), Some(15));
    assert_eq!(clock_minutes("ab:cd"), Some(0));
    assert_eq!(clock_minutes("12:30:45"), Some(720));
    assert_eq!(clock_minutes("+1:+2"), Some(62));
    assert_eq!(clock_minutes(""), Some(0));
}

#[test]
fn clock_minutes_overflow_is_refused() {
    assert_eq!(clock_minutes("71582788:15"), Some(71582788 * 60 + 15));
    assert_eq!(clock_minutes("71582789:00"), None);
    assert_eq!(clock_minutes("71582788:4294967295"), None);
}

#[test]
fn parse_u32_matches_std() {
    for s in ["0", "4294967295", "4294967296", "+5", "x", ""] {
        assert_eq!(parse_u32(s), s.parse::<u32>().ok());
    }
}

#[test]
fn window_same_day_and_overnight() {
    assert!(window_contains(60, 60, 480));
    assert!(window_contains(479, 60, 480));
    assert!(!window_contains(480, 60, 480));
    assert!(!window_contains(59, 60, 480));
    assert!(window_contains(1380, 1320, 360));
    assert!(window_contains(30, 1320, 360));
    assert!(!window_contains(720, 1320, 360));
    assert!(!window_contains(100, 100, 100));
}

#[test]
fn window_complement_law() {
    for now in 0..1440 {
        assert_eq!(window_contains(now, 60, 480), !window_contains(now, 480, 60));
    }
}

#[test]
fn time_in_window_full_and_empty() {
    assert!(!time_in_window("05:00", "05:00"));
    assert!(time_in_window("00:00", "24:00"));
}

#[test]
fn in_window_at_uses_hour_and_minute() {
    assert!(in_window_at(1, 0, "01:00", "08:00"));
    assert!(in_window_at(7, 59, "01:00", "08:00"));
    assert!(!in_window_at(8, 0, "01:00", "08:00"));
    assert!(!in_window_at(0, 59, "01:00", "08:00"));
    assert!(in_window_at(1, 30, "01:30", "01:31"));
    assert!(!in_window_at(1, 0, "01:30", "01:31"));
    assert!(in_window_at(23, 10, "22:00", "06:00"));
    assert!(in_window_at(5, 59, "22:00", "06:00"));
    assert!(!in_window_at(12, 0, "22:00", "06:00"));
}

#[test]
fn scheduler_window_cases() {
    let mut s = Settings::defaults(String::new());
    assert_eq!(scheduler_window(&s), None);
    s.schedule_start = "99999999999:00".into();
    assert_eq!(scheduler_window(&s), None);
    s.scheduler_enabled = true;
    s.schedule_start = "00:00".into();
    s.schedule_stop = "24:00".into();
    assert_eq!(scheduler_window(&s), Some(true));
    s.schedule_stop = "00:00".into();
    assert_eq!(scheduler_window(&s), Some(false));
}

fn dl(gid: &str, status: &str) -> Download {
    Download {
        gid: gid.into(),
        name: String::new(),
        url: String::new(),
        total: 0,
        completed: 0,
        speed: 0,
        status: status.into(),
        dir: String::new(),
    }
}

#[test]
fn scheduler_pauses_outside_and_resumes_only_its_own() {
    let list = vec![dl("a", "active"), dl("u", "paused"), dl("w", "waiting"), dl("c", "complete")];
    let (state, calls) = scheduler_step(SchedulerState::new(), true, false, &list);
    assert_eq!(calls, vec![Call::PauseAll]);
    assert_eq!(state.paused, vec!["a", "w"]);

    // A later check outside the window pauses all again and remembers nothing new.
    let later = vec![dl("a", "paused"), dl("u", "paused"), dl("w", "paused")];
    let (state, calls) = scheduler_step(state, true, false, &later);
    assert_eq!(calls, vec![Call::PauseAll]);
    assert_eq!(state.paused, vec!["a", "w"]);

    // Inside the window only the scheduler's own pauses are lifted; "u" stays paused.
    let (state, calls) = scheduler_step(state, true, true, &later);
    assert_eq!(calls, vec![Call::Unpause("a".into()), Call::Unpause("w".into())]);
    assert!(state.paused.is_empty());

    let (state, calls) = scheduler_step(state, true, true, &later);
    assert!(calls.is_empty() && state.paused.is_empty());
}

#[test]
fn scheduler_pauses_all_even_without_a_listing() {
    let (state, calls) = scheduler_step(SchedulerState::new(), true, false, &Vec::new());
    assert_eq!(calls, vec![Call::PauseAll]);
    assert!(state.paused.is_empty());
}

#[test]
fn scheduler_off_does_nothing() {
    let list = vec![dl("a", "active")];
    let (state, calls) = scheduler_step(SchedulerState::new(), false, false, &list);
    assert!(calls.is_empty() && state.paused.is_empty());
    let mut kept = SchedulerState::new();
    kept.paused.push("x".into());
    let (state, calls) = scheduler_step(kept, false, true, &list);
    assert!(calls.is_empty());
    assert_eq!(state.paused, vec!["x"]);
}
