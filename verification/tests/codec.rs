use where_rs::collection::SessionCollection;
use where_rs::error::EncodeDecodeError;
use where_rs::session::Session;
use where_rs::{whered_magic, MAX_ENTRY_LENGTH, MAX_PAYLOAD_ENTRIES, MAX_PAYLOAD_LENGTH};

fn sample_session(remote: Option<&[u8]>) -> Session {
    Session {
        host: None,
        user: b"alice".to_vec(),
        pid: 1234,
        tty: b"tty1".to_vec(),
        remote: remote.map(|r| r.to_vec()),
        active: true,
        login_time: 1_700_000_000,
    }
}

#[test]
fn magic_token_is_whrd() {
    assert_eq!(whered_magic(), b"WHRD".to_vec());
}

#[test]
fn limits_are_as_documented() {
    assert_eq!(MAX_ENTRY_LENGTH, 153);
    assert_eq!(MAX_PAYLOAD_LENGTH, 65501);
    assert_eq!(MAX_PAYLOAD_ENTRIES, 428);
}

#[test]
fn record_layout_is_exact() {
    let s = Session {
        host: None,
        user: b"ab".to_vec(),
        pid: 1,
        tty: b"t".to_vec(),
        remote: None,
        active: true,
        login_time: 2,
    };
    let bytes = s.to_udp_payload();
    let expected: Vec<u8> = vec![
        0, 0, 0, 1, // pid
        0, 0, 0, 0, 0, 0, 0, 2, // login_time
        0, 0, 0, 2, 97, 98, // user
        0, 0, 0, 1, 116, // tty
        0, // remote absent
        1, // active
    ];
    assert_eq!(bytes, expected);
}

#[test]
fn record_layout_with_remote() {
    let s = sample_session(Some(b"example.org"));
    let bytes = s.to_udp_payload();
    // fixed fields + user + tty + remote tag/len/body + active
    assert_eq!(bytes.len(), 4 + 8 + 4 + 5 + 4 + 4 + 1 + 4 + 11 + 1);
    assert_eq!(bytes[29], 1); // remote present
    assert_eq!(&bytes[30..34], &[0, 0, 0, 11]);
    assert_eq!(&bytes[34..45], b"example.org");
    assert_eq!(bytes[bytes.len() - 1], 1); // active
}

#[test]
fn record_round_trip_with_remote() {
    let s = sample_session(Some(b"example.org"));
    let bytes = s.to_udp_payload();
    let (decoded, end) = Session::from_udp_payload(&bytes, 0, b"myhost").unwrap();
    assert_eq!(end, bytes.len());
    assert_eq!(decoded.host, Some(b"myhost".to_vec()));
    assert_eq!(decoded.user, s.user);
    assert_eq!(decoded.pid, s.pid);
    assert_eq!(decoded.tty, s.tty);
    assert_eq!(decoded.remote, s.remote);
    assert_eq!(decoded.active, s.active);
    assert_eq!(decoded.login_time, s.login_time);
}

#[test]
fn record_round_trip_negative_values() {
    let s = Session {
        host: None,
        user: Vec::new(),
        pid: -42,
        tty: Vec::new(),
        remote: None,
        active: false,
        login_time: -1,
    };
    let bytes = s.to_udp_payload();
    let (decoded, end) = Session::from_udp_payload(&bytes, 0, b"h").unwrap();
    assert_eq!(end, bytes.len());
    assert_eq!(decoded.pid, -42);
    assert_eq!(decoded.login_time, -1);
    assert!(!decoded.active);
    assert_eq!(decoded.remote, None);
}

#[test]
fn record_round_trip_extreme_integers() {
    for (pid, lt) in [
        (i32::MIN, i64::MIN),
        (i32::MAX, i64::MAX),
        (0, 0),
        (-1, i64::MIN + 1),
    ] {
        let s = Session {
            host: None,
            user: b"u".to_vec(),
            pid,
            tty: b"t".to_vec(),
            remote: None,
            active: true,
            login_time: lt,
        };
        let bytes = s.to_udp_payload();
        let (decoded, _) = Session::from_udp_payload(&bytes, 0, b"h").unwrap();
        assert_eq!(decoded.pid, pid);
        assert_eq!(decoded.login_time, lt);
    }
}

fn raw_record(user_len: u32, tty_len: u32, tag: u8, remote_len: Option<u32>) -> Vec<u8> {
    let mut b = Vec::new();
    b.extend_from_slice(&1i32.to_be_bytes());
    b.extend_from_slice(&2i64.to_be_bytes());
    b.extend_from_slice(&user_len.to_be_bytes());
    b.extend_from_slice(&vec![b'x'; user_len.min(64) as usize]);
    b.extend_from_slice(&tty_len.to_be_bytes());
    b.extend_from_slice(&vec![b'y'; tty_len.min(64) as usize]);
    b.push(tag);
    if let Some(rl) = remote_len {
        b.extend_from_slice(&rl.to_be_bytes());
        b.extend_from_slice(&vec![b'z'; rl.min(100) as usize]);
    }
    b.push(1);
    b
}

#[test]
fn empty_remote_is_rejected() {
    let b = raw_record(0, 0, 1, Some(0));
    let err = Session::from_udp_payload(&b, 0, b"h").unwrap_err();
    assert_eq!(err, EncodeDecodeError::EmptyRemote);
}

#[test]
fn overlong_remote_is_rejected() {
    let b = raw_record(0, 0, 1, Some(65));
    let err = Session::from_udp_payload(&b, 0, b"h").unwrap_err();
    assert_eq!(err, EncodeDecodeError::StringTooLong(65, 64));
}

#[test]
fn longest_remote_is_accepted() {
    let b = raw_record(0, 0, 1, Some(64));
    let (s, _) = Session::from_udp_payload(&b, 0, b"h").unwrap();
    assert_eq!(s.remote, Some(vec![b'z'; 64]));
}

#[test]
fn overlong_user_is_rejected() {
    let b = raw_record(33, 0, 0, None);
    let err = Session::from_udp_payload(&b, 0, b"h").unwrap_err();
    assert_eq!(err, EncodeDecodeError::StringTooLong(33, 32));
}

#[test]
fn overlong_tty_is_rejected() {
    let b = raw_record(0, 40, 0, None);
    let err = Session::from_udp_payload(&b, 0, b"h").unwrap_err();
    assert_eq!(err, EncodeDecodeError::StringTooLong(40, 32));
}

#[test]
fn nonbinary_remote_tag_is_rejected() {
    let b = raw_record(0, 0, 2, None);
    let err = Session::from_udp_payload(&b, 0, b"h").unwrap_err();
    assert_eq!(err, EncodeDecodeError::InvalidBoolean);
}

#[test]
fn nonbinary_active_flag_is_rejected() {
    let mut b = raw_record(0, 0, 0, None);
    let last = b.len() - 1;
    b[last] = 7;
    let err = Session::from_udp_payload(&b, 0, b"h").unwrap_err();
    assert_eq!(err, EncodeDecodeError::InvalidBoolean);
}

#[test]
fn truncated_record_is_rejected() {
    let b = raw_record(4, 4, 0, None);
    for cut in [0, 3, 11, 15, 17, 20, 24, b.len() - 1] {
        let err = Session::from_udp_payload(&b[..cut], 0, b"h").unwrap_err();
        assert_eq!(err, EncodeDecodeError::TruncatedInput, "cut at {cut}");
    }
}

#[test]
fn collection_round_trip() {
    let sessions = vec![
        sample_session(Some(b"example.org")),
        Session {
            host: None,
            user: b"bob".to_vec(),
            pid: -7,
            tty: b"pts/0".to_vec(),
            remote: None,
            active: false,
            login_time: 99,
        },
    ];
    let payload = SessionCollection::from_vec(sessions.clone())
        .to_udp_payload()
        .unwrap();
    assert_eq!(&payload[..4], b"WHRD");
    assert_eq!(&payload[4..6], &[0, 2]);
    let decoded = SessionCollection::from_udp_payload(&payload, b"lbl")
        .unwrap()
        .into_vec();
    assert_eq!(decoded.len(), 2);
    for (d, s) in decoded.iter().zip(sessions.iter()) {
        assert_eq!(d.host, Some(b"lbl".to_vec()));
        assert_eq!(d.user, s.user);
        assert_eq!(d.pid, s.pid);
        assert_eq!(d.tty, s.tty);
        assert_eq!(d.remote, s.remote);
        assert_eq!(d.active, s.active);
        assert_eq!(d.login_time, s.login_time);
    }
}

#[test]
fn empty_collection_round_trip() {
    let payload = SessionCollection::get_empty().to_udp_payload().unwrap();
    assert_eq!(payload, b"WHRD\x00\x00".to_vec());
    let decoded = SessionCollection::from_udp_payload(&payload, b"lbl").unwrap();
    assert_eq!(decoded.len(), 0);
}

#[test]
fn bad_magic_is_rejected_whatever_follows() {
    let mut payload = SessionCollection::from_vec(vec![sample_session(None)])
        .to_udp_payload()
        .unwrap();
    payload[0] = b'X';
    let err = SessionCollection::from_udp_payload(&payload, b"lbl").unwrap_err();
    assert_eq!(err, EncodeDecodeError::BadMagic(b'X', b'H', b'R', b'D'));

    let err = SessionCollection::from_udp_payload(&[9, 8, 7, 6], b"lbl").unwrap_err();
    assert_eq!(err, EncodeDecodeError::BadMagic(9, 8, 7, 6));
}

#[test]
fn declared_count_above_contents_is_rejected() {
    let mut payload = SessionCollection::from_vec(vec![
        sample_session(None),
        sample_session(Some(b"example.org")),
    ])
    .to_udp_payload()
    .unwrap();
    payload[4] = 0;
    payload[5] = 5;
    let err = SessionCollection::from_udp_payload(&payload, b"lbl").unwrap_err();
    assert_eq!(err, EncodeDecodeError::EntryCountMismatch);
}

#[test]
fn declared_count_below_contents_is_rejected() {
    let mut payload = SessionCollection::from_vec(vec![
        sample_session(None),
        sample_session(Some(b"example.org")),
    ])
    .to_udp_payload()
    .unwrap();
    payload[4] = 0;
    payload[5] = 1;
    let err = SessionCollection::from_udp_payload(&payload, b"lbl").unwrap_err();
    assert_eq!(err, EncodeDecodeError::EntryCountMismatch);
}

fn largest_fitting_session() -> Session {
    // 26 fixed bytes + 32 + 32 + 63 = 153, exactly the entry ceiling
    Session {
        host: None,
        user: vec![b'u'; 32],
        pid: 1,
        tty: vec![b't'; 32],
        remote: Some(vec![b'r'; 63]),
        active: true,
        login_time: 0,
    }
}

#[test]
fn oversized_entry_is_rejected() {
    // 26 fixed bytes + 32 + 32 + 64 = 154, one over the entry ceiling
    let s = Session {
        remote: Some(vec![b'r'; 64]),
        ..largest_fitting_session()
    };
    let err = SessionCollection::from_vec(vec![s]).to_udp_payload().unwrap_err();
    assert_eq!(err, EncodeDecodeError::EntryTooLarge(154));
}

#[test]
fn full_payload_is_accepted() {
    let sessions = vec![largest_fitting_session(); 428];
    let payload = SessionCollection::from_vec(sessions).to_udp_payload().unwrap();
    assert_eq!(payload.len(), 6 + 428 * 153);
    assert!(payload.len() <= MAX_PAYLOAD_LENGTH);
    let decoded = SessionCollection::from_udp_payload(&payload, b"lbl").unwrap();
    assert_eq!(decoded.len(), 428);
}

#[test]
fn overfull_payload_is_rejected() {
    let sessions = vec![largest_fitting_session(); 429];
    let err = SessionCollection::from_vec(sessions).to_udp_payload().unwrap_err();
    assert_eq!(err, EncodeDecodeError::PayloadTooLarge(6 + 429 * 153));
}

#[test]
fn from_parts_cuts_to_limits() {
    let s = Session::from_parts(
        vec![b'u'; 40],
        5,
        vec![b't'; 33],
        vec![b'h'; 70],
        true,
        123,
    );
    assert_eq!(s.host, None);
    assert_eq!(s.user, vec![b'u'; 32]);
    assert_eq!(s.tty, vec![b't'; 32]);
    assert_eq!(s.remote, Some(vec![b'h'; 64]));
    assert!(s.active);
    assert_eq!(s.login_time, 123);
}

#[test]
fn from_parts_empty_host_means_local() {
    let s = Session::from_parts(b"alice".to_vec(), 1, b"tty1".to_vec(), Vec::new(), false, 0);
    assert_eq!(s.remote, None);
    assert_eq!(s.user, b"alice".to_vec());
    assert!(!s.active);
}
