use where_rs::error::{EncodeDecodeError, WhereError};
use where_rs::query::{
    GlobalConfig, QueryMachine, ServerConfig, DEFAULT_PORT, MAX_SEND_RETRIES, TIMEOUT,
};

fn server(endpoint: &str) -> ServerConfig {
    ServerConfig {
        endpoint: endpoint.to_string(),
        label: None,
        timeout: None,
        max_retries: None,
        failsafe: None,
    }
}

fn globals() -> GlobalConfig {
    GlobalConfig::default()
}

#[test]
fn defaults_match_the_protocol() {
    assert_eq!(TIMEOUT, 2000);
    assert_eq!(MAX_SEND_RETRIES, 3);
    assert_eq!(DEFAULT_PORT, 15);
}

#[test]
fn built_in_defaults_apply_when_nothing_is_set() {
    let s = server("host:15");
    let g = globals();
    assert_eq!(s.effective_timeout(&g), 2000);
    assert_eq!(s.effective_retries(&g), 3);
    assert!(!s.effective_failsafe());
    assert_eq!(s.effective_label().as_str(), "host:15");
    assert_eq!(g.effective_port(), 15);
    assert!(g.effective_include_inactive());
}

#[test]
fn global_overrides_beat_defaults() {
    let s = server("host");
    let g = GlobalConfig {
        timeout: Some(500),
        max_retries: Some(7),
        include_inactive: Some(false),
        port: Some(1500),
        source: Some("HQ".to_string()),
    };
    assert_eq!(s.effective_timeout(&g), 500);
    assert_eq!(s.effective_retries(&g), 7);
    assert_eq!(g.effective_port(), 1500);
    assert!(!g.effective_include_inactive());
}

#[test]
fn server_overrides_beat_globals() {
    let s = ServerConfig {
        endpoint: "host".to_string(),
        label: Some("prod".to_string()),
        timeout: Some(100),
        max_retries: Some(1),
        failsafe: Some(true),
    };
    let g = GlobalConfig {
        timeout: Some(500),
        max_retries: Some(7),
        include_inactive: None,
        port: None,
        source: None,
    };
    assert_eq!(s.effective_timeout(&g), 100);
    assert_eq!(s.effective_retries(&g), 1);
    assert!(s.effective_failsafe());
    assert_eq!(s.effective_label().as_str(), "prod");
}

#[test]
fn silent_server_gets_exactly_three_sends_then_times_out() {
    let mut machine = QueryMachine::new("host:15".to_string(), 2000, 3);
    let mut sends: usize = 0;
    while machine.begin_attempt() {
        // the socket never answers: each wait ends in a timeout,
        // which consumes the attempt and is not an error
        sends += 1;
    }
    assert_eq!(sends, 3);
    let err = machine.into_timeout_error();
    assert_eq!(err, WhereError::TimedOut("host:15".to_string(), 3, 2000));
}

#[test]
fn zero_retries_allow_no_send() {
    let mut machine = QueryMachine::new("h".to_string(), 10, 0);
    assert!(!machine.begin_attempt());
}

#[test]
fn a_reply_is_decoded_with_the_label() {
    let machine = QueryMachine::new("h".to_string(), 10, 3);
    let payload = b"WHRD\x00\x00";
    let collection = machine.on_reply(payload, b"mylabel").unwrap();
    assert_eq!(collection.len(), 0);
}

#[test]
fn an_invalid_reply_is_surfaced_not_retried() {
    let machine = QueryMachine::new("h".to_string(), 10, 3);
    let err = machine.on_reply(b"NOPE\x00\x00", b"lbl").unwrap_err();
    assert_eq!(
        err,
        WhereError::EncodeDecodeError(EncodeDecodeError::BadMagic(b'N', b'O', b'P', b'E'))
    );
}
