use where_rs::aggregate::{
    absorb_result, column_widths, pid_width, sort_sessions, visible_sessions,
};
use where_rs::collection::SessionCollection;
use where_rs::error::WhereError;
use where_rs::session::Session;

fn session(login_time: i64, active: bool) -> Session {
    Session {
        host: None,
        user: b"u".to_vec(),
        pid: 1,
        tty: b"t".to_vec(),
        remote: None,
        active,
        login_time,
    }
}

#[test]
fn active_sessions_come_first_in_login_order() {
    let mut sessions = vec![session(100, false), session(50, true), session(200, true)];
    sort_sessions(&mut sessions);
    let key: Vec<(i64, bool)> = sessions.iter().map(|s| (s.login_time, s.active)).collect();
    assert_eq!(key, vec![(50, true), (200, true), (100, false)]);
}

#[test]
fn inactive_sessions_keep_login_order_too() {
    let mut sessions = vec![
        session(5, false),
        session(3, false),
        session(4, true),
        session(1, false),
        session(2, true),
    ];
    sort_sessions(&mut sessions);
    let key: Vec<(i64, bool)> = sessions.iter().map(|s| (s.login_time, s.active)).collect();
    assert_eq!(
        key,
        vec![(2, true), (4, true), (1, false), (3, false), (5, false)]
    );
}

#[test]
fn one_failsafe_timeout_does_not_abort_the_query() {
    let mut merged: Vec<Session> = Vec::new();

    // the failsafe server times out: absorbed as an empty result
    let timed_out = WhereError::TimedOut("down:15".to_string(), 3, 2000);
    assert!(absorb_result(&mut merged, Err(timed_out), true).is_ok());
    assert!(merged.is_empty());

    // the healthy server still contributes its sessions
    let healthy = SessionCollection::from_vec(vec![session(7, true)]);
    assert!(absorb_result(&mut merged, Ok(healthy), false).is_ok());
    assert_eq!(merged.len(), 1);
    assert_eq!(merged[0].login_time, 7);
}

#[test]
fn a_failure_without_failsafe_aborts_with_that_error() {
    let mut merged = vec![session(1, true)];
    let timed_out = WhereError::TimedOut("down:15".to_string(), 3, 2000);
    let err = absorb_result(&mut merged, Err(timed_out.clone()), false).unwrap_err();
    assert_eq!(err, timed_out);
    assert_eq!(merged.len(), 1);
}

#[test]
fn successful_results_append_in_order() {
    let mut merged: Vec<Session> = Vec::new();
    let first = SessionCollection::from_vec(vec![session(1, true), session(2, false)]);
    let second = SessionCollection::from_vec(vec![session(3, true)]);
    absorb_result(&mut merged, Ok(first), false).unwrap();
    absorb_result(&mut merged, Ok(second), true).unwrap();
    let times: Vec<i64> = merged.iter().map(|s| s.login_time).collect();
    assert_eq!(times, vec![1, 2, 3]);
}

#[test]
fn hiding_inactive_sessions_keeps_the_active_ones_in_order() {
    let sessions = vec![session(1, true), session(2, false), session(3, true)];
    let all = visible_sessions(sessions.clone(), true);
    assert_eq!(all.len(), 3);
    let live = visible_sessions(sessions, false);
    let times: Vec<i64> = live.iter().map(|s| s.login_time).collect();
    assert_eq!(times, vec![1, 3]);
}

#[test]
fn pid_width_counts_digits_and_sign() {
    assert_eq!(pid_width(0), 1);
    assert_eq!(pid_width(7), 1);
    assert_eq!(pid_width(10), 2);
    assert_eq!(pid_width(-1), 2);
    assert_eq!(pid_width(99999), 5);
    assert_eq!(pid_width(i32::MAX), 10);
    assert_eq!(pid_width(i32::MIN), 11);
}

#[test]
fn column_widths_floor_at_the_header_minimums() {
    let w = column_widths(&Vec::new());
    assert_eq!(
        (w.host, w.remote, w.user, w.tty, w.pid),
        (5, 7, 5, 4, 4)
    );
}

#[test]
fn column_widths_track_the_widest_value() {
    let sessions = vec![
        Session {
            host: Some(b"a-very-long-host-label".to_vec()),
            user: b"u".to_vec(),
            pid: -123456,
            tty: b"pts/11".to_vec(),
            remote: None,
            active: true,
            login_time: 0,
        },
        Session {
            host: None,
            user: b"someone".to_vec(),
            pid: 4,
            tty: b"t".to_vec(),
            remote: Some(b"remote.example".to_vec()),
            active: false,
            login_time: 0,
        },
    ];
    let w = column_widths(&sessions);
    assert_eq!(w.host, 22);
    assert_eq!(w.remote, 14);
    assert_eq!(w.user, 7);
    assert_eq!(w.tty, 6);
    assert_eq!(w.pid, 7);
}
